use chrono::Datelike;
use presupuestos::elementos::{Activos, Asiento, Cuadro, Cuenta, Masa, Movimiento, Patrimonios};
use presupuestos::fecha::Fecha;
use std::rc::Rc;

fn setup_cuentas() -> [Rc<Cuenta>; 2] {
    let mut cuenta1 = Cuenta::new("Cuenta 1", Masa::Activo(Activos::ActivoCorriente));
    let mut cuenta2 = Cuenta::new("Cuenta 2", Masa::Patrimonio(Patrimonios::Capital));

    cuenta1.incrementar_saldo(&2000);
    cuenta2.incrementar_saldo(&2000);

    [Rc::new(cuenta1), Rc::new(cuenta2)]
}

fn setupcuadro() -> Cuadro {
    let mut cuadro = Cuadro::create();

    cuadro.insertar_cuenta("Capital", Masa::Patrimonio(Patrimonios::Capital));
    cuadro.insertar_cuenta("Bancos", Masa::Activo(Activos::ActivoCorriente));
    cuadro.insertar_cuenta("Alimerka", Masa::Patrimonio(Patrimonios::Gastos));

    cuadro
}

fn hoy() -> Fecha {
    let d = chrono::offset::Local::now().date_naive();
    Fecha { anio: d.year(), mes: d.month(), dia: d.day() }
}

#[test]
fn insertar_movimiento_actualiza_asiento() {
    let [cuenta1, cuenta2] = setup_cuentas();
    let movimiento = Movimiento::new(2000, cuenta1.nombre(), cuenta2.nombre());

    let mut asiento = Asiento::new("asiento de prueba");

    assert_eq!(asiento.n_movimientos(), 0);

    asiento.insertar_movimiento(movimiento);

    assert_eq!(asiento.n_movimientos(), 1);
}

#[test]
fn crear_asiento_crea_asiento() {
    let antes = hoy();
    let asiento_test = Asiento::new("asiento de muestra");
    let despues = hoy();

    assert!(
        asiento_test == Asiento::con_fecha("asiento de muestra", antes)
            || asiento_test == Asiento::con_fecha("asiento de muestra", despues)
    );
}

#[test]
fn fecha_modifica_y_devuelve_la_fecha() {
    let mut asiento = Asiento::new("concepto");

    asiento.fecha(Fecha::new(2023, 1, 1));

    let fecha = asiento.fecha(None);
    assert_eq!(fecha.anio, 2023);
    assert_eq!(fecha.mes, 1);
    assert_eq!(fecha.dia, 1);

    assert_eq!(asiento.fecha(None), fecha);
}

#[test]
fn insertar_cuenta_crea_e_inserta_una_cuenta() {
    let mut cuadro = Cuadro::create();

    cuadro.insertar_cuenta("Cuenta 1", Masa::Patrimonio(Patrimonios::Capital));

    assert_eq!(cuadro.cuentas().len(), 1);
    assert_eq!(cuadro.cuentas()[0].saldo(), 0);
    assert_eq!(cuadro.cuentas()[0].nombre(), "Cuenta 1");
}

#[test]
fn validar_cuenta_devuelve_true_nombre_cuenta() {
    let mut cuadro = Cuadro::create();

    cuadro.insertar_cuenta("Cuenta 1", Masa::Patrimonio(Patrimonios::Capital));

    assert!(cuadro.validar_cuenta("Cuenta 1"));
    assert!(!cuadro.validar_cuenta("Cuenta 2"));
}

#[test]
fn cuenta_devuelve_referencia_mutable_a_cuenta() {
    let mut cuadro = Cuadro::create();

    cuadro.insertar_cuenta("Cuenta test", Masa::Patrimonio(Patrimonios::Capital));

    assert_eq!(
        cuadro.cuenta("Cuenta test"),
        Some(&mut Cuenta::new("Cuenta test", Masa::Patrimonio(Patrimonios::Capital)))
    );
    assert_eq!(cuadro.cuenta("Ninguna"), None);
}

#[test]
fn insertar_movimiento_contable_crea_movimiento_y_actualiza_cuentas() {
    let mut cuadro = Cuadro::create();

    cuadro.insertar_cuenta("Caja Rural", Masa::Activo(Activos::ActivoCorriente));
    cuadro.insertar_cuenta("Alimerka", Masa::Patrimonio(Patrimonios::Gastos));

    assert!(cuadro.validar_cuenta("Alimerka") && cuadro.validar_cuenta("Caja Rural"));
    cuadro.crear_movimiento("Alimerka", "Caja Rural", 2000);

    if let Some(cuenta1) = cuadro.cuenta("Caja Rural") {
        assert_eq!(cuenta1.saldo(), -2000);
    };
    if let Some(cuenta2) = cuadro.cuenta("Alimerka") {
        assert_eq!(cuenta2.saldo(), 2000);
    };
}

#[test]
fn crear_asiento_con_un_movimiento_crea_movimiento_y_modifica_saldos() {
    let mut cuadro = setupcuadro();

    let movimiento = vec![("Bancos", "Capital", 30000)];

    cuadro.crear_asiento("Un asiento", None, movimiento);

    match cuadro.cuenta("Bancos") {
        Some(v) => {
            assert_eq!(v.saldo(), 30000)
        }
        None => panic!("El saldo no se ha modificado"),
    }
}

#[test]
fn crear_asiento_con_varios_movimientos() {
    let mut cuadro = setupcuadro();

    let movimientos = vec![("Bancos", "Capital", 30000), ("Alimerka", "Bancos", 2000)];

    cuadro.crear_asiento("Un asiento", None, movimientos);

    match cuadro.cuenta("Capital") {
        Some(v) => assert_eq!(v.saldo(), -30000),
        None => panic!("No se ha transferido el capital"),
    }

    match cuadro.cuenta("Alimerka") {
        Some(v) => assert_eq!(v.saldo(), 2000),
        None => panic!("No se ha cargo la cuenta de Alimerka"),
    }

    match cuadro.cuenta("Bancos") {
        Some(v) => assert_eq!(v.saldo(), 28000),
        None => panic!("No se han reflejado los movimientos del banco"),
    }
}

#[test]
fn crear_asiento_guarda_el_asiento_con_sus_movimientos() {
    let mut cuadro = setupcuadro();

    cuadro.crear_asiento_con_fecha(
        "Un asiento",
        Fecha::new(2023, 6, 28).unwrap(),
        vec![("Bancos", "Capital", 30000), ("Alimerka", "Bancos", 2000)],
    );

    assert_eq!(cuadro.asientos().len(), 1);
    let mut esperado = Asiento::con_fecha("Un asiento", Fecha::new(2023, 6, 28).unwrap());
    esperado.insertar_movimiento(Movimiento::new(30000, "Bancos".to_string(), "Capital".to_string()));
    esperado.insertar_movimiento(Movimiento::new(2000, "Alimerka".to_string(), "Bancos".to_string()));
    assert_eq!(cuadro.asientos()[0], esperado);
}

#[test]
fn un_movimiento_de_una_cuenta_a_si_misma_no_cambia_su_saldo() {
    let mut cuadro = setupcuadro();

    cuadro.crear_movimiento("Bancos", "Bancos", 500);

    assert_eq!(cuadro.cuenta("Bancos").unwrap().saldo(), 0);
}

#[test]
fn con_nombres_repetidos_se_toma_la_primera_cuenta() {
    let mut cuadro = setupcuadro();
    cuadro.insertar_cuenta("Bancos", Masa::Activo(Activos::ActivoNoCorriente));

    cuadro.crear_movimiento("Bancos", "Capital", 100);

    assert_eq!(cuadro.cuentas()[1].saldo(), 100);
    assert_eq!(cuadro.cuentas()[3].saldo(), 0);
    assert_eq!(cuadro.cuenta("Bancos").unwrap().masa(), Masa::Activo(Activos::ActivoCorriente));
}

#[test]
fn imprimir_movimiento() {
    let movimiento = Movimiento::new(2000, "Alimerka".to_string(), "Bancos".to_string());

    assert_eq!(
        movimiento.imprimir(),
        format!("\n        {:<20} debe {} € a {:>20}\n        ", "Alimerka", "20.00", "Bancos")
    );
}

#[test]
fn imprimir_asiento() {
    let mut asiento = Asiento::con_fecha("Compra", Fecha::new(2023, 1, 31).unwrap());
    let movimiento = Movimiento::new(-5, "Alimerka".to_string(), "Una cuenta de nombre muy largo".to_string());
    let linea = movimiento.imprimir();
    asiento.insertar_movimiento(movimiento);

    let esperado = format!("{:-^70}\n{:-^70}\n{}", "Compra", "2023-01-31", linea);

    assert_eq!(asiento.imprimir(), esperado);
    assert!(linea.contains(" debe -0.05 € a Una cuenta de nombre muy largo\n"));
}
