use presupuestos::cuadro_contable::cuenta::{Apunte, Cuenta, Lado};
use presupuestos::cuadro_contable::masa::Masa;
use presupuestos::cuadro_contable::{
    codigos_sin_masa, Cuadro, CuadroError, LibroDiario, LibroDiarioError,
};
use presupuestos::fecha::Fecha;

fn setup_cuadro() -> Cuadro {
    let mut cuadro = Cuadro::new();

    cuadro.crear_cuenta("test", "0000", Masa::ActivoCorriente).unwrap();
    cuadro.crear_cuenta("test1", "0001", Masa::Patrimonio).unwrap();
    cuadro.crear_cuenta("test2", "0002", Masa::PasivoCorriente).unwrap();

    cuadro
}

fn dia(anio: i32, mes: u32, dia: u32) -> Fecha {
    Fecha::new(anio, mes, dia).unwrap()
}

#[test]
fn new_crea_cuadro_vacio() {
    let cuadro = Cuadro::new();

    assert!(cuadro.cuentas().is_empty());
    assert!(cuadro.libro_diario().is_empty());
    assert_eq!(cuadro, Cuadro::new());
}

#[test]
fn cargar_pgc_falla_si_ya_hay_cuentas() {
    let mut cuadro = Cuadro::new();
    cuadro.crear_cuenta("test", "0000", Masa::ActivoCorriente).unwrap();

    assert_eq!(cuadro.cargar_pgc(&[("Capital social", "100")]), Err(CuadroError::CuadroNoVacio));
    assert_eq!(cuadro.cuentas().len(), 1);
}

#[test]
fn cargar_pgc_carga_las_cuentas_que_tienen_masa() {
    let tabla = [
        ("Capital social", "100"),
        ("Sin grupo", "0"),
        ("Bancos", "572"),
        ("Personal", "46"),
        ("Compras", "600"),
    ];
    let mut cuadro = Cuadro::new();

    assert!(cuadro.cargar_pgc(&tabla).is_ok());

    assert_eq!(cuadro.cuentas().len(), 3);
    assert_eq!(cuadro.cuentas()[0], Cuenta::new("Capital social", "100", Masa::Patrimonio));
    assert_eq!(cuadro.cuentas()[1], Cuenta::new("Bancos", "572", Masa::ActivoCorriente));
    assert_eq!(cuadro.cuentas()[2], Cuenta::new("Compras", "600", Masa::Gasto));
}

#[test]
fn cargar_pgc_se_detiene_en_un_codigo_repetido() {
    let tabla = [("Capital social", "100"), ("Capital", "100"), ("Bancos", "572")];
    let mut cuadro = Cuadro::new();

    let r = cuadro.cargar_pgc(&tabla);

    assert_eq!(r, Err(CuadroError::CuentaDuplicada("100 ~ Capital social".to_string())));
    assert_eq!(cuadro.cuentas().len(), 1);
}

#[test]
fn cargar_pgc_de_una_tabla_vacia() {
    let mut cuadro = Cuadro::new();
    assert_eq!(cuadro.cargar_pgc(&[]), Ok(()));
    assert!(cuadro.cuentas().is_empty());
}

#[test]
fn buscar_cuenta_encuentra_una_cuenta_por_codigo() {
    let mut cuadro = Cuadro::new();
    cuadro.crear_cuenta("test", "0000", Masa::ActivoCorriente).unwrap();

    assert_eq!(cuadro.buscar_cuenta("0001"), None);
    assert!(match cuadro.buscar_cuenta("0000") {
        Some(v) => {
            assert_eq!(v.nombre(), "test");
            assert_eq!(v.codigo(), "0000");
            true
        }
        None => false,
    })
}

#[test]
fn find_cuenta_encuentra_una_cuenta_por_codigo() {
    let cuadro = setup_cuadro();

    assert_eq!(cuadro.find_cuenta("0003"), None);
    assert_eq!(cuadro.find_cuenta("0002"), Some(&Cuenta::new("test2", "0002", Masa::PasivoCorriente)));
}

#[test]
fn crear_cuenta_falla_si_ya_existe() {
    let mut cuadro = Cuadro::new();
    cuadro.crear_cuenta("test", "0000", Masa::ActivoCorriente).unwrap();

    let r = cuadro.crear_cuenta("Nueva cuenta", "0000", Masa::ActivoCorriente);

    assert!(r.is_err());
    assert!(match r {
        Ok(()) => false,
        Err(e) => {
            assert_eq!(e.to_string(), "La cuenta '0000 ~ test' ya existe");
            true
        }
    });
    assert_eq!(cuadro.cuentas().len(), 1);
}

#[test]
fn mensajes_de_error_del_cuadro() {
    assert_eq!(
        CuadroError::CuadroNoVacio.to_string(),
        "El cuadro ya contiene cuentas. Puedes añadir de una en una, pero no cargar el PGC"
    );
    assert_eq!(
        CuadroError::CuentaInexistente("999".to_string()).to_string(),
        "El código de cuenta '999' no existe"
    );
    assert_eq!(
        LibroDiarioError::AsientoDesequilibrado.to_string(),
        "el debe y el haber del asiento que intentas insertar no coinciden"
    );
}

#[test]
fn insertar_asiento_crea_asiento_y_modifica_las_cuentas() {
    let mut cuadro = setup_cuadro();
    let mut libro_diario = LibroDiario::new();

    let insercion = libro_diario.insertar_asiento(
        "Primer asiento",
        None,
        vec![("0000", 2000)],
        vec![("0001", 2000)],
        &mut cuadro,
    );

    assert!(insercion.is_ok());
    assert_eq!(libro_diario.asientos().len(), 1);

    let cuenta0000 = cuadro.buscar_cuenta("0000");
    assert!(match cuenta0000 {
        Some(v) => {
            assert_eq!(v.saldo(), 2000);
            true
        }
        None => false,
    });
    let cuenta0001 = cuadro.buscar_cuenta("0001");
    assert!(match cuenta0001 {
        Some(v) => {
            assert_eq!(v.saldo(), -2000);
            true
        }
        None => false,
    })
}

#[test]
fn insertar_asiento_mal_formado_falla() {
    let mut cuadro = setup_cuadro();
    let mut libro_diario = LibroDiario::new();

    let insercion = libro_diario.insertar_asiento(
        "Primer asiento",
        None,
        vec![("0000", 2000)],
        vec![("0001", 2200)],
        &mut cuadro,
    );

    assert!(insercion.is_err());
    assert_eq!(insercion, Err(LibroDiarioError::AsientoDesequilibrado));
    assert!(libro_diario.asientos().is_empty());
}

#[test]
fn insertar_asiento_rechazado_no_toca_las_cuentas() {
    let mut cuadro = setup_cuadro();
    let mut libro_diario = LibroDiario::new();

    let insercion = libro_diario.insertar_asiento(
        "Primer asiento",
        None,
        vec![("0000", 2000)],
        vec![("0001", 2200)],
        &mut cuadro,
    );

    assert_eq!(insercion, Err(LibroDiarioError::AsientoDesequilibrado));
    assert_eq!(cuadro.buscar_cuenta("0000").unwrap().saldo(), 0);
    assert_eq!(cuadro.buscar_cuenta("0001").unwrap().saldo(), 0);
    assert_eq!(cuadro, setup_cuadro());
    assert!(libro_diario.asientos().is_empty());
}

#[test]
fn insertar_asiento_pasa_por_alto_las_cuentas_que_no_existen() {
    let mut cuadro = setup_cuadro();
    let mut libro_diario = LibroDiario::new();

    let r = libro_diario.insertar_asiento_con_fecha(
        "Con una cuenta de mas",
        dia(2023, 5, 1),
        vec![("0000", 1500), ("9999", 700)],
        vec![("0001", 1000), ("0002", 500)],
        &mut cuadro,
    );

    assert_eq!(r, Ok(()));
    let asiento = &libro_diario.asientos()[0];
    assert_eq!(asiento.debe().len(), 1);
    assert_eq!(asiento.haber().len(), 2);
    assert_eq!(asiento.haber()[1].nombre_cuenta(), "test2");
    assert_eq!(asiento.fecha(), dia(2023, 5, 1));
    assert_eq!(asiento.codigo(), "202305010");
    assert_eq!(asiento.concepto(), "Con una cuenta de mas");
    assert_eq!(asiento.total_debe(), 1500);
    assert_eq!(asiento.total_haber(), 1500);
    assert!(asiento.validar_saldos());
    assert_eq!(cuadro.find_cuenta("0000").unwrap().saldo(), 1500);
    assert_eq!(cuadro.find_cuenta("0002").unwrap().saldo(), -500);
}

#[test]
fn insertar_asiento_da_un_codigo_a_cada_asiento() {
    let mut cuadro = setup_cuadro();
    let mut libro_diario = LibroDiario::new();
    let f = dia(2023, 5, 1);

    for n in 0..12 {
        let r = libro_diario.insertar_asiento_con_fecha(
            "Otro",
            f,
            vec![("0000", 10 + n)],
            vec![("0001", 10 + n)],
            &mut cuadro,
        );
        assert_eq!(r, Ok(()));
    }

    let codigos: Vec<&str> = libro_diario.asientos().iter().map(|a| a.codigo()).collect();
    assert_eq!(codigos.len(), 12);
    assert_eq!(codigos[0], "202305010");
    assert_eq!(codigos[11], "2023050111");
    for i in 0..codigos.len() {
        for j in 0..i {
            assert_ne!(codigos[i], codigos[j]);
        }
    }
}

#[test]
fn insertar_asiento_con_codigo_repetido_reemplaza() {
    let mut cuadro = setup_cuadro();
    let mut libro_diario = LibroDiario::new();
    let f = dia(2023, 1, 2);
    for (concepto, codigo) in [("Uno", "a"), ("Dos", "b"), ("Tres", "c")] {
        libro_diario
            .insertar_asiento_con_codigo(concepto, f, vec![("0000", 100)], vec![("0001", 100)], codigo, &mut cuadro)
            .unwrap();
    }

    let r = libro_diario.insertar_asiento_con_codigo(
        "Dos, corregido",
        dia(2023, 1, 3),
        vec![("0002", 250)],
        vec![("0000", 250)],
        "b",
        &mut cuadro,
    );

    assert_eq!(r, Ok(()));
    let asientos = libro_diario.asientos();
    assert_eq!(asientos.len(), 3);
    assert_eq!(asientos[0].concepto(), "Uno");
    assert_eq!(asientos[1].concepto(), "Dos, corregido");
    assert_eq!(asientos[1].codigo(), "b");
    assert_eq!(asientos[1].fecha(), dia(2023, 1, 3));
    assert_eq!(asientos[1].debe().len(), 1);
    assert_eq!(asientos[1].debe()[0].codigo_cuenta(), "0002");
    assert_eq!(asientos[1].total_haber(), 250);
    assert_eq!(asientos[2].concepto(), "Tres");
}

#[test]
fn un_asiento_descuadrado_no_reemplaza_en_el_libro_diario() {
    let mut cuadro = setup_cuadro();
    let mut libro_diario = LibroDiario::new();
    let f = dia(2023, 1, 2);
    libro_diario
        .insertar_asiento_con_codigo("Uno", f, vec![("0000", 100)], vec![("0001", 100)], "a", &mut cuadro)
        .unwrap();

    let r = libro_diario.insertar_asiento_con_codigo(
        "Otro",
        f,
        vec![("0000", 1)],
        vec![("0001", 2)],
        "a",
        &mut cuadro,
    );

    assert_eq!(r, Err(LibroDiarioError::AsientoDesequilibrado));
    assert_eq!(libro_diario.asientos().len(), 1);
    assert_eq!(libro_diario.asientos()[0].concepto(), "Uno");
    assert_eq!(cuadro.find_cuenta("0000").unwrap().saldo(), 100);
}

#[test]
fn tras_varios_asientos_cada_cuenta_tiene_sus_movimientos() {
    let mut cuadro = setup_cuadro();
    let mut libro_diario = LibroDiario::new();
    let f = dia(2023, 1, 2);
    let asientos: [(Vec<(&str, i64)>, Vec<(&str, i64)>); 3] = [
        (vec![("0000", 100), ("0002", 50)], vec![("0001", 150)]),
        (vec![("0001", 30)], vec![("0000", 30)]),
        (vec![("0000", 7), ("0000", 8)], vec![("0000", 15)]),
    ];

    for (debe, haber) in asientos {
        libro_diario.insertar_asiento_con_fecha("Asiento", f, debe, haber, &mut cuadro).unwrap();
    }

    let cuenta = cuadro.find_cuenta("0000").unwrap();
    assert_eq!(
        cuenta.apuntes(),
        &vec![
            Apunte { lado: Lado::Debe, importe: 100 },
            Apunte { lado: Lado::Haber, importe: 30 },
            Apunte { lado: Lado::Debe, importe: 7 },
            Apunte { lado: Lado::Debe, importe: 8 },
            Apunte { lado: Lado::Haber, importe: 15 },
        ]
    );
    assert_eq!(cuenta.total_deudor(), 115);
    assert_eq!(cuenta.total_acreedor(), 45);
    assert_eq!(cuadro.find_cuenta("0001").unwrap().total_deudor(), 30);
    assert_eq!(cuadro.find_cuenta("0001").unwrap().total_acreedor(), 150);
    assert_eq!(cuadro.find_cuenta("0002").unwrap().total_deudor(), 50);
    assert_eq!(cuadro.find_cuenta("0002").unwrap().total_acreedor(), 0);
}

#[test]
fn codigos_sin_masa_da_las_filas_que_no_se_cargan() {
    let tabla = [
        ("Capital social", "100"),
        ("Sin grupo", "0"),
        ("Bancos", "572"),
        ("Personal", "46"),
        ("Compras", "600"),
        ("Texto", "x60"),
    ];

    assert_eq!(codigos_sin_masa(&tabla), vec!["0", "46", "x60"]);
    assert!(codigos_sin_masa(&[]).is_empty());
}

#[test]
fn insertar_asiento_sin_fecha_toma_la_de_hoy() {
    let mut cuadro = setup_cuadro();
    let mut libro_diario = LibroDiario::new();
    let antes = chrono::offset::Local::now().date_naive();

    libro_diario
        .insertar_asiento("Hoy", None, vec![("0000", 1)], vec![("0001", 1)], &mut cuadro)
        .unwrap();

    let despues = chrono::offset::Local::now().date_naive();
    let f = libro_diario.asientos()[0].fecha();
    let fecha = chrono::NaiveDate::from_ymd_opt(f.anio, f.mes, f.dia).unwrap();
    assert!(antes <= fecha && fecha <= despues);
}

#[test]
fn crear_asiento_cuadrado_entra_y_descuadrado_no() {
    let mut cuadro = setup_cuadro();

    let bien = cuadro.crear_asiento("Bien", None, vec![("0000", 2000)], vec![("0001", 2000)], "1");
    let mal = cuadro.crear_asiento("Mal", None, vec![("0000", 2000)], vec![("0001", 2200)], "2");

    assert_eq!(bien, Ok(()));
    assert_eq!(mal, Err(LibroDiarioError::AsientoDesequilibrado));
    assert_eq!(cuadro.libro_diario().len(), 1);
    assert_eq!(cuadro.libro_diario()[0].codigo(), "1");
    // Posting to the journal leaves the accounts alone.
    assert_eq!(cuadro.find_cuenta("0000").unwrap().saldo(), 0);
}

#[test]
fn por_un_centimo_no_cuadra() {
    let mut cuadro = setup_cuadro();

    let r = cuadro.crear_asiento("Casi", None, vec![("0000", 2000)], vec![("0001", 2001)], "1");

    assert_eq!(r, Err(LibroDiarioError::AsientoDesequilibrado));
}

#[test]
fn crear_asiento_con_codigo_repetido_reemplaza() {
    let mut cuadro = setup_cuadro();
    let f = dia(2023, 1, 2);
    cuadro.crear_asiento_con_fecha("Uno", f, vec![("0000", 100)], vec![("0001", 100)], "a").unwrap();
    cuadro.crear_asiento_con_fecha("Dos", f, vec![("0000", 200)], vec![("0002", 200)], "b").unwrap();
    cuadro.crear_asiento_con_fecha("Tres", f, vec![("0001", 300)], vec![("0002", 300)], "c").unwrap();

    let r = cuadro.crear_asiento_con_fecha(
        "Dos, corregido",
        dia(2023, 1, 3),
        vec![("0000", 250)],
        vec![("0002", 250)],
        "b",
    );

    assert_eq!(r, Ok(()));
    let diario = cuadro.libro_diario();
    assert_eq!(diario.len(), 3);
    assert_eq!(diario[0].concepto(), "Uno");
    assert_eq!(diario[1].concepto(), "Dos, corregido");
    assert_eq!(diario[1].fecha(), dia(2023, 1, 3));
    assert_eq!(diario[1].total_debe(), 250);
    assert_eq!(diario[2].concepto(), "Tres");
}

#[test]
fn un_asiento_descuadrado_no_reemplaza() {
    let mut cuadro = setup_cuadro();
    let f = dia(2023, 1, 2);
    cuadro.crear_asiento_con_fecha("Uno", f, vec![("0000", 100)], vec![("0001", 100)], "a").unwrap();

    let r = cuadro.crear_asiento_con_fecha("Otro", f, vec![("0000", 1)], vec![("0001", 2)], "a");

    assert_eq!(r, Err(LibroDiarioError::AsientoDesequilibrado));
    assert_eq!(cuadro.libro_diario().len(), 1);
    assert_eq!(cuadro.libro_diario()[0].concepto(), "Uno");
}

#[test]
fn mayorizar_cuenta_recoge_sus_movimientos_en_orden() {
    let mut cuadro = setup_cuadro();
    let f = dia(2023, 1, 2);
    cuadro
        .crear_asiento_con_fecha("Uno", f, vec![("0000", 100), ("0002", 50)], vec![("0001", 150)], "a")
        .unwrap();
    cuadro
        .crear_asiento_con_fecha("Dos", f, vec![("0001", 30)], vec![("0000", 30)], "b")
        .unwrap();
    cuadro
        .crear_asiento_con_fecha("Tres", f, vec![("0000", 7), ("0000", 8)], vec![("0000", 15)], "c")
        .unwrap();

    assert_eq!(cuadro.mayorizar_cuenta("0000"), Ok(()));

    let cuenta = cuadro.find_cuenta("0000").unwrap();
    assert_eq!(
        cuenta.apuntes(),
        &vec![
            Apunte { lado: Lado::Debe, importe: 100 },
            Apunte { lado: Lado::Haber, importe: 30 },
            Apunte { lado: Lado::Debe, importe: 7 },
            Apunte { lado: Lado::Debe, importe: 8 },
            Apunte { lado: Lado::Haber, importe: 15 },
        ]
    );
    assert_eq!(cuenta.total_deudor(), 115);
    assert_eq!(cuenta.total_acreedor(), 45);
    assert_eq!(cuenta.saldo(), 70);
    // The other accounts have not been rebuilt.
    assert!(cuadro.find_cuenta("0001").unwrap().apuntes().is_empty());
}

#[test]
fn mayorizar_cuenta_olvida_lo_que_no_esta_en_el_diario() {
    let mut cuadro = setup_cuadro();
    let mut otro_diario = LibroDiario::new();
    otro_diario
        .insertar_asiento("Fuera", None, vec![("0000", 999)], vec![("0001", 999)], &mut cuadro)
        .unwrap();
    cuadro.crear_asiento("Dentro", None, vec![("0000", 10)], vec![("0001", 10)], "a").unwrap();

    cuadro.mayorizar_cuenta("0000").unwrap();
    cuadro.mayorizar_cuenta("0000").unwrap();

    assert_eq!(cuadro.find_cuenta("0000").unwrap().saldo(), 10);
    assert_eq!(cuadro.find_cuenta("0001").unwrap().saldo(), -999);
}

#[test]
fn mayorizar_cuenta_inexistente_falla() {
    let mut cuadro = setup_cuadro();

    let r = cuadro.mayorizar_cuenta("4242");

    assert_eq!(r, Err(CuadroError::CuentaInexistente("4242".to_string())));
}

#[test]
fn mayorizar_rehace_todas_las_cuentas() {
    let mut cuadro = setup_cuadro();
    let f = dia(2023, 1, 2);
    cuadro.crear_asiento_con_fecha("Uno", f, vec![("0000", 100)], vec![("0001", 100)], "a").unwrap();
    cuadro.crear_asiento_con_fecha("Dos", f, vec![("0002", 40)], vec![("0000", 40)], "b").unwrap();

    cuadro.mayorizar();

    assert_eq!(cuadro.find_cuenta("0000").unwrap().saldo(), 60);
    assert_eq!(cuadro.find_cuenta("0001").unwrap().saldo(), -100);
    assert_eq!(cuadro.find_cuenta("0002").unwrap().saldo(), 40);
    assert_eq!(cuadro.to_string(), "(0000) test ~ 0.60 €\n(0001) test1 ~ -1.00 €\n(0002) test2 ~ 0.40 €\n");
}

#[test]
fn resolver_partidas_copia_codigo_y_nombre() {
    let cuadro = setup_cuadro();

    let ms = cuadro.resolver_partidas(&vec![("0002", 5), ("nada", 6), ("0000", -7)]);

    assert_eq!(ms.len(), 2);
    assert_eq!(ms[0].codigo_cuenta(), "0002");
    assert_eq!(ms[0].nombre_cuenta(), "test2");
    assert_eq!(ms[0].importe(), 5);
    assert_eq!(ms[1].codigo_cuenta(), "0000");
    assert_eq!(ms[1].importe(), -7);
}

#[test]
fn validar_cuenta_busca_por_nombre() {
    let cuadro = setup_cuadro();

    assert!(cuadro.validar_cuenta("test1"));
    assert!(!cuadro.validar_cuenta("0001"));
}

#[test]
fn un_asiento_vacio_cuadra() {
    let mut cuadro = setup_cuadro();

    let r = cuadro.crear_asiento("Nada", None, vec![], vec![("9999", 10)], "z");

    assert_eq!(r, Ok(()));
    assert_eq!(cuadro.libro_diario()[0].debe().len(), 0);
    assert_eq!(cuadro.libro_diario()[0].haber().len(), 0);
}

#[test]
fn texto_del_libro_diario() {
    let mut cuadro = setup_cuadro();
    cuadro
        .crear_asiento_con_fecha(
            "Compra\nde material",
            dia(2023, 3, 9),
            vec![("0000", 100)],
            vec![("0001", 100)],
            "2023030901",
        )
        .unwrap();

    let texto = cuadro.texto_libro_diario();

    let regla = format!("+{}+\n", "-".repeat(118));
    let fila = |t: &str| format!("|{:^118}|\n", t);
    let esperado = format!(
        "{}{}{}{}{}{}{}",
        regla,
        fila("N.º 2023030901"),
        fila("Compra"),
        fila("de material"),
        fila("2023-03-09"),
        regla,
        regla
    );
    assert_eq!(texto, esperado);
    assert_eq!(cuadro.libro_diario()[0].to_string(), esperado);
}
