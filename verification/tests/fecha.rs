use chrono::NaiveDate;
use presupuestos::fecha::{dias_en_mes, es_bisiesto, Fecha, ANIO_MAX, ANIO_MIN};

#[test]
fn new_acepta_las_fechas_que_existen() {
    assert_eq!(Fecha::new(2023, 1, 31), Some(Fecha { anio: 2023, mes: 1, dia: 31 }));
    assert_eq!(Fecha::new(2024, 2, 29), Some(Fecha { anio: 2024, mes: 2, dia: 29 }));
    assert_eq!(Fecha::new(2023, 2, 29), None);
    assert_eq!(Fecha::new(2023, 4, 31), None);
    assert_eq!(Fecha::new(2023, 0, 1), None);
    assert_eq!(Fecha::new(2023, 13, 1), None);
    assert_eq!(Fecha::new(2023, 1, 0), None);
    assert_eq!(Fecha::new(1900, 2, 29), None);
    assert_eq!(Fecha::new(2000, 2, 29), Some(Fecha { anio: 2000, mes: 2, dia: 29 }));
    assert_eq!(Fecha::new(-4, 2, 29), Some(Fecha { anio: -4, mes: 2, dia: 29 }));
    assert!(Fecha::new(ANIO_MAX, 12, 31).is_some());
    assert!(Fecha::new(ANIO_MAX + 1, 1, 1).is_none());
    assert!(Fecha::new(ANIO_MIN, 1, 1).is_some());
    assert!(Fecha::new(ANIO_MIN - 1, 12, 31).is_none());
}

#[test]
fn las_fechas_validas_son_las_de_chrono() {
    let anios = [-262144, -262143, -401, -400, -100, -4, -1, 0, 1, 4, 100, 1900, 2000, 2023, 2024, 262142, 262143];
    for anio in anios {
        for mes in 0..=13 {
            for dia in 0..=32 {
                let nuestra = Fecha::new(anio, mes, dia).is_some();
                let suya = NaiveDate::from_ymd_opt(anio, mes, dia).is_some();
                assert_eq!(nuestra, suya, "{anio}-{mes}-{dia}");
            }
        }
    }
}

#[test]
fn bisiestos() {
    assert!(es_bisiesto(2024));
    assert!(!es_bisiesto(2023));
    assert!(!es_bisiesto(1900));
    assert!(es_bisiesto(2000));
    assert!(es_bisiesto(0));
    assert!(es_bisiesto(-4));
    assert!(!es_bisiesto(-100));
    assert!(es_bisiesto(-400));
    assert!(es_bisiesto(i32::MIN));
    assert!(!es_bisiesto(i32::MAX));
    assert_eq!(dias_en_mes(2024, 2), 29);
    assert_eq!(dias_en_mes(2023, 2), 28);
    assert_eq!(dias_en_mes(2023, 11), 30);
    assert_eq!(dias_en_mes(2023, 12), 31);
}

#[test]
fn anterior_a_ordena_por_anio_mes_y_dia() {
    let a = Fecha { anio: 2022, mes: 12, dia: 12 };
    let b = Fecha { anio: 2023, mes: 1, dia: 1 };
    let c = Fecha { anio: 2023, mes: 1, dia: 2 };
    let d = Fecha { anio: 2023, mes: 2, dia: 1 };

    assert!(a.anterior_a(&b));
    assert!(b.anterior_a(&c));
    assert!(c.anterior_a(&d));
    assert!(!b.anterior_a(&a));
    assert!(!d.anterior_a(&c));
    assert!(!b.anterior_a(&b));
}

#[test]
fn el_texto_de_una_fecha_es_el_de_chrono() {
    let casos = [
        (2023, 1, 31),
        (2023, 12, 1),
        (999, 5, 6),
        (0, 1, 1),
        (9999, 12, 31),
        (10000, 1, 1),
        (-1, 3, 4),
        (-12345, 10, 20),
        (262142, 12, 31),
        (-262143, 1, 1),
    ];
    for (anio, mes, dia) in casos {
        let nuestra = Fecha::new(anio, mes, dia).unwrap();
        let suya = NaiveDate::from_ymd_opt(anio, mes, dia).unwrap();
        assert_eq!(nuestra.texto_iso(), suya.format("%Y-%m-%d").to_string());
        assert_eq!(nuestra.texto_compacto(), suya.format("%Y%m%d").to_string());
    }
    assert_eq!(Fecha::new(2023, 1, 31).unwrap().texto_iso(), "2023-01-31");
    assert_eq!(Fecha::new(2023, 1, 31).unwrap().texto_compacto(), "20230131");
    assert_eq!(Fecha::new(-1, 3, 4).unwrap().texto_iso(), "-0001-03-04");
    assert_eq!(Fecha::new(10000, 1, 1).unwrap().texto_iso(), "+10000-01-01");
    assert_eq!(Fecha::new(2023, 1, 31).unwrap().texto_con_separador("/"), "2023/01/31");
}

#[test]
fn primer_dia_del_mes() {
    let f = Fecha::new(2024, 2, 29).unwrap();
    assert_eq!(f.primer_dia_del_mes(), Fecha { anio: 2024, mes: 2, dia: 1 });
    assert!(f.es_valida());
    assert!(!Fecha { anio: 2023, mes: 2, dia: 29 }.es_valida());
}
