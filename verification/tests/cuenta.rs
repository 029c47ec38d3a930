use presupuestos::cuenta::Cuenta;

#[test]
fn new_crea_cuenta() {
    let cuenta_creada = Cuenta::new("Cuenta 1");

    assert_eq!(cuenta_creada.saldo(), 0);
    assert_eq!(cuenta_creada.nombre(), "Cuenta 1");
    assert_eq!(cuenta_creada, Cuenta::new("Cuenta 1"));
}

#[test]
fn incrementar_saldo_modifica_saldo() {
    let mut cuenta = Cuenta::new("test_incremento");
    cuenta.incrementar_saldo(&1200);

    let test_incremento = cuenta.incrementar_saldo(&500);

    assert_eq!(cuenta.saldo(), 1700);
    assert_eq!(test_incremento, 1700);
}

#[test]
fn reducir_saldo_modifica_saldo() {
    let mut cuenta = Cuenta::new("test_reducción");
    cuenta.incrementar_saldo(&1200);

    let test_reduccion = cuenta.reducir_saldo(&500);

    assert_eq!(cuenta.saldo(), 700);
    assert_eq!(test_reduccion, 700);
}

#[test]
fn el_saldo_no_se_desborda_en_los_extremos() {
    let mut cuenta = Cuenta::new("extremos");

    assert_eq!(cuenta.incrementar_saldo(&i64::MAX), i64::MAX as i128);
    assert_eq!(cuenta.incrementar_saldo(&i64::MAX), 2 * (i64::MAX as i128));
    assert_eq!(cuenta.reducir_saldo(&i64::MIN), 2 * (i64::MAX as i128) - i64::MIN as i128);
    assert_eq!(cuenta.saldo(), 3 * (i64::MAX as i128) + 1);
}
