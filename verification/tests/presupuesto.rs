use chrono::Datelike;
use presupuestos::cuadro_contable::cuenta::CuentaError;
use presupuestos::cuadro_contable::masa::Masa;
use presupuestos::cuadro_contable::presupuesto::{
    ImportePresupuesto, ItemPresupuesto, Presupuesto, PresupuestoError, RangoError, RangoFechas,
};
use presupuestos::cuadro_contable::Cuadro;
use presupuestos::fecha::Fecha;

fn cuadro_de_prueba() -> Cuadro {
    let mut cuadro = Cuadro::new();
    cuadro.crear_cuenta("Supermercados", "629", Masa::Gasto).unwrap();
    cuadro.crear_cuenta("Alquiler", "621", Masa::Gasto).unwrap();
    cuadro
}

#[test]
#[allow(non_snake_case)]
fn create_rangoFechas_funciona() {
    let fechas = RangoFechas::create(None, None).unwrap();

    let now = chrono::offset::Local::now().date_naive();

    assert_eq!(fechas.inicio().mes, now.month() + 1);
    assert_eq!(fechas.fin().mes, now.month() + 1);
}

#[test]
#[allow(non_snake_case)]
fn create_rangoFechas_falla_si_fin_es_anterior_a_inicio() {
    let fallo = RangoFechas::create(Fecha::new(2023, 12, 12), Fecha::new(2022, 12, 12));

    assert_eq!(fallo, Err(RangoError));
}

#[test]
fn insertar_item_actualiza_presupuesto() {
    let cuadro = cuadro_de_prueba();

    let fecha_inicio = Fecha::new(2023, 6, 28);
    let fecha_fin = Fecha::new(2023, 6, 30);
    let mut presupuesto = Presupuesto::new(fecha_inicio, fecha_fin, &cuadro).unwrap();

    presupuesto.insertar_gasto_diario("Compra básica", "Supermercados", 1500).unwrap();

    assert_eq!(presupuesto.partida("Supermercados"), Some(4500));
    assert_eq!(presupuesto.items().len(), 1);
}

#[test]
fn el_rango_por_defecto_es_el_mes_siguiente() {
    let hoy = Fecha::new(2023, 1, 31).unwrap();

    let rango = RangoFechas::create_en(hoy, None, None).unwrap();

    assert_eq!(rango.inicio(), Fecha { anio: 2023, mes: 2, dia: 1 });
    assert_eq!(rango.fin(), Fecha { anio: 2023, mes: 2, dia: 28 });
    assert_eq!(rango.dias(), 27);

    let diciembre = RangoFechas::create_en(Fecha::new(2023, 12, 15).unwrap(), None, None).unwrap();
    assert_eq!(diciembre.inicio(), Fecha { anio: 2024, mes: 1, dia: 1 });
    assert_eq!(diciembre.fin(), Fecha { anio: 2024, mes: 1, dia: 31 });
    assert_eq!(diciembre.dias(), 30);

    let bisiesto = RangoFechas::create_en(Fecha::new(2024, 1, 31).unwrap(), None, None).unwrap();
    assert_eq!(bisiesto.fin(), Fecha { anio: 2024, mes: 2, dia: 29 });
}

#[test]
fn el_rango_con_un_extremo_dado() {
    let hoy = Fecha::new(2023, 1, 31).unwrap();

    let r = RangoFechas::create_en(hoy, Fecha::new(2023, 2, 10), None).unwrap();
    assert_eq!(r.inicio(), Fecha { anio: 2023, mes: 2, dia: 10 });
    assert_eq!(r.fin(), Fecha { anio: 2023, mes: 2, dia: 28 });
    assert_eq!(r.dias(), 18);

    let r = RangoFechas::create_en(hoy, None, Fecha::new(2024, 2, 1)).unwrap();
    assert_eq!(r.inicio(), Fecha { anio: 2023, mes: 2, dia: 1 });
    assert_eq!(r.dias(), 365);

    assert_eq!(RangoFechas::create_en(hoy, Fecha::new(2023, 3, 1), None), Err(RangoError));
    assert_eq!(RangoFechas::create_en(hoy, None, Fecha::new(2023, 1, 31)), Err(RangoError));

    let un_dia = RangoFechas::create_en(hoy, Fecha::new(2023, 5, 5), Fecha::new(2023, 5, 5)).unwrap();
    assert_eq!(un_dia.dias(), 0);
}

#[test]
fn no_hay_rango_con_fechas_que_no_existen() {
    let hoy = Fecha::new(2023, 1, 31).unwrap();
    let falsa = Fecha { anio: 2023, mes: 2, dia: 30 };

    assert_eq!(RangoFechas::create_en(hoy, Some(falsa), None), Err(RangoError));
    assert_eq!(RangoFechas::create_en(hoy, None, Some(Fecha { anio: 2023, mes: 13, dia: 1 })), Err(RangoError));
    assert_eq!(RangoFechas::create_en(falsa, None, None), Err(RangoError));
    assert!(RangoFechas::create_en(falsa, Fecha::new(2023, 1, 1), Fecha::new(2023, 1, 2)).is_ok());
    // The month after the last that chrono reaches.
    assert_eq!(RangoFechas::create_en(Fecha::new(262142, 12, 1).unwrap(), None, None), Err(RangoError));
}

#[test]
fn items_sobre_cuentas_del_cuadro() {
    let cuadro = cuadro_de_prueba();

    let diario = ItemPresupuesto::item_diario("Compra", &cuadro, "Supermercados", 1500).unwrap();
    let puntual = ItemPresupuesto::item_puntual("Fianza", &cuadro, "Alquiler", 90_000).unwrap();

    assert_eq!(diario.importe_total(2), 4500);
    assert_eq!(diario.importe_total(0), 1500);
    assert_eq!(puntual.importe_total(2), 90_000);
    assert_eq!(ItemPresupuesto::item_diario("Compra", &cuadro, "629", 1500), Err(CuentaError));
    assert_eq!(ItemPresupuesto::item_puntual("Fianza", &cuadro, "Luz", 1), Err(CuentaError));
    let extremo = ItemPresupuesto::item_diario("Todo", &cuadro, "Alquiler", i64::MIN).unwrap();
    assert_eq!(extremo.importe_total(i64::MAX), (i64::MIN as i128) * (1i128 << 63));
    assert_ne!(ImportePresupuesto::Diario(1), ImportePresupuesto::Puntual(1));
}

#[test]
fn las_partidas_suman_los_items_de_cada_cuenta() {
    let cuadro = cuadro_de_prueba();
    let hoy = Fecha::new(2023, 6, 1).unwrap();
    let mut presupuesto =
        Presupuesto::new_en(hoy, Fecha::new(2023, 6, 1), Fecha::new(2023, 6, 30), &cuadro).unwrap();

    assert_eq!(presupuesto.partida("Supermercados"), None);
    presupuesto.insertar_gasto_diario("Compra", "Supermercados", 1500).unwrap();
    presupuesto.insertar_gasto_diario("Alquiler del piso", "Alquiler", 2000).unwrap();
    presupuesto.insertar_gasto_diario("Pan", "Supermercados", 100).unwrap();

    assert_eq!(presupuesto.partida("Supermercados"), Some(30 * 1600));
    assert_eq!(presupuesto.partida("Alquiler"), Some(30 * 2000));
    assert_eq!(presupuesto.partida("Luz"), None);
    assert_eq!(presupuesto.items().len(), 3);
    assert_eq!(presupuesto.fechas().dias(), 29);
}

#[test]
fn un_gasto_sobre_una_cuenta_desconocida_no_entra() {
    let cuadro = cuadro_de_prueba();
    let mut presupuesto =
        Presupuesto::new(Fecha::new(2023, 6, 28), Fecha::new(2023, 6, 30), &cuadro).unwrap();

    let r = presupuesto.insertar_gasto_diario("Recibo", "Luz", 1500);

    assert_eq!(r, Err(PresupuestoError::CuentaDesconocida));
    assert!(presupuesto.items().is_empty());
    assert_eq!(presupuesto.partida("Luz"), None);
}

#[test]
fn los_mayores_importes_caben_en_la_partida() {
    let cuadro = cuadro_de_prueba();
    let mut presupuesto =
        Presupuesto::new(Fecha::new(-262143, 1, 1), Fecha::new(262142, 12, 31), &cuadro).unwrap();
    let dias = presupuesto.fechas().dias() as i128 + 1;

    for _ in 0..1000 {
        assert_eq!(presupuesto.insertar_gasto_diario("Mucho", "Alquiler", i64::MAX), Ok(()));
    }
    assert_eq!(presupuesto.insertar_gasto_diario("Poco", "Alquiler", i64::MIN), Ok(()));

    assert_eq!(dias, 191_491_529);
    assert_eq!(
        presupuesto.partida("Alquiler"),
        Some(1000 * dias * i64::MAX as i128 + dias * i64::MIN as i128)
    );
}

#[test]
fn presupuesto_con_rango_imposible() {
    let cuadro = cuadro_de_prueba();

    assert!(Presupuesto::new(Fecha::new(2023, 12, 12), Fecha::new(2022, 12, 12), &cuadro).is_err());
}

#[test]
fn el_rango_entre_dos_extremos_dados() {
    let inicio = Fecha::new(2023, 6, 28).unwrap();
    let fin = Fecha::new(2023, 6, 30).unwrap();

    let rango = RangoFechas::de_extremos(inicio, fin, Some(2)).unwrap();

    assert_eq!(rango.inicio(), inicio);
    assert_eq!(rango.fin(), fin);
    assert_eq!(rango.dias(), 2);
    assert_eq!(RangoFechas::de_extremos(fin, inicio, Some(-2)), Err(RangoError));
    assert_eq!(RangoFechas::de_extremos(inicio, fin, None), Err(RangoError));
    assert!(RangoFechas::de_extremos(inicio, inicio, Some(0)).is_ok());
}

#[test]
fn los_extremos_por_defecto_son_los_de_chrono() {
    let dias = [
        (2023, 1, 31),
        (2023, 11, 30),
        (2023, 12, 31),
        (2024, 1, 30),
        (2024, 12, 1),
        (1999, 12, 31),
        (-1, 11, 15),
        (-262143, 1, 1),
        (262141, 12, 31),
    ];
    for (anio, mes, dia) in dias {
        let hoy = chrono::NaiveDate::from_ymd_opt(anio, mes, dia).unwrap();
        let inicio = (hoy + chrono::Months::new(1)).with_day(1).unwrap();
        let fin = (hoy + chrono::Months::new(2)).with_day(1).unwrap() - chrono::Days::new(1);

        let rango = RangoFechas::create_en(Fecha::new(anio, mes, dia).unwrap(), None, None).unwrap();

        assert_eq!(rango.inicio(), Fecha { anio: inicio.year(), mes: inicio.month(), dia: 1 });
        assert_eq!(rango.fin(), Fecha { anio: fin.year(), mes: fin.month(), dia: fin.day() });
        assert_eq!(rango.dias(), (fin - inicio).num_days());
        assert!(rango.dias() >= 27);
    }
}
