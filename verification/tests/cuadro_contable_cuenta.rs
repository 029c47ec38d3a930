use presupuestos::cuadro_contable::cuenta::{Apunte, Cuenta, Lado};
use presupuestos::cuadro_contable::masa::Masa;

fn setup_cuenta() -> Cuenta {
    Cuenta::new("test", "0000", Masa::ActivoCorriente)
}

#[test]
fn new_crea_nueva_cuenta() {
    let cuenta = Cuenta::new("Cuenta 1", "101", Masa::ActivoCorriente);

    assert_eq!(cuenta.nombre(), "Cuenta 1".to_string());
    assert_eq!(cuenta.codigo(), "101".to_string());
    assert_eq!(cuenta.masa(), Masa::ActivoCorriente);
    assert!(cuenta.apuntes().is_empty());
    assert_eq!(cuenta.total_deudor(), 0);
    assert_eq!(cuenta.total_acreedor(), 0);
    assert_eq!(cuenta, Cuenta::new("Cuenta 1", "101", Masa::ActivoCorriente));
}

#[test]
fn saldo_deudor() {
    let mut cuenta = setup_cuenta();

    cuenta.saldo_deudor(2005);

    assert_eq!(cuenta.saldo(), 2005);
}

#[test]
fn saldo_acreedor() {
    let mut cuenta = setup_cuenta();

    cuenta.saldo_acreedor(2005);
    assert_eq!(cuenta.saldo(), -2005);
}

#[test]
fn nombre_clona_nombre_cuenta() {
    let cuenta = setup_cuenta();

    assert_eq!(cuenta.nombre(), "test".to_string());
}

#[test]
fn codigo_clona_codigo_cuenta() {
    let cuenta = setup_cuenta();

    assert_eq!(cuenta.codigo(), "0000".to_string());
}

#[test]
fn saldo_devuelve_saldo() {
    let cuenta = setup_cuenta();

    assert_eq!(cuenta.saldo(), 0);
}

#[test]
fn display_muestra_codigo_nombre_y_saldo() {
    let cuenta = setup_cuenta();

    assert_eq!(cuenta.to_string(), "(0000) test ~ 0.00 €");
}

#[test]
fn display_con_ancho_ocupa_todo_el_ancho() {
    let cuenta = setup_cuenta();

    assert_eq!(cuenta.texto_con_ancho(20), "(0000) test...0.00 €");
}

#[test]
fn display_con_ancho_pero_sin_ancho_sufciente_imprime_estandar() {
    let cuenta = setup_cuenta();

    assert_eq!(cuenta.texto_con_ancho(10), "(0000) test 0.00 €");
}

#[test]
fn el_saldo_es_el_total_deudor_menos_el_acreedor() {
    let mut cuenta = setup_cuenta();
    let importes: [i64; 6] = [2005, -300, 0, i64::MAX, i64::MIN, 17];

    for (i, importe) in importes.iter().enumerate() {
        if i % 2 == 0 {
            cuenta.saldo_deudor(*importe);
        } else {
            cuenta.saldo_acreedor(*importe);
        }
        assert_eq!(cuenta.saldo(), cuenta.total_deudor() - cuenta.total_acreedor());
    }

    assert_eq!(cuenta.total_deudor(), 2005 + 0 + i64::MIN as i128);
    assert_eq!(cuenta.total_acreedor(), -300 + i64::MAX as i128 + 17);
    assert_eq!(cuenta.apuntes().len(), 6);
    assert_eq!(cuenta.apuntes()[1], Apunte { lado: Lado::Haber, importe: -300 });
}

#[test]
fn reiniciar_olvida_los_apuntes() {
    let mut cuenta = setup_cuenta();
    cuenta.saldo_deudor(100);
    cuenta.saldo_acreedor(40);

    cuenta.reiniciar();

    assert_eq!(cuenta.saldo(), 0);
    assert!(cuenta.apuntes().is_empty());
    assert_eq!(cuenta, setup_cuenta());
}

#[test]
fn texto_de_saldo_negativo_y_con_centimos() {
    let mut cuenta = Cuenta::new("Bancos", "572", Masa::ActivoCorriente);
    cuenta.saldo_acreedor(5);
    assert_eq!(cuenta.to_string(), "(572) Bancos ~ -0.05 €");
    cuenta.saldo_deudor(123_456);
    assert_eq!(cuenta.to_string(), "(572) Bancos ~ 1234.51 €");
}

#[test]
fn ancho_cuenta_los_bytes_de_la_cabecera() {
    let cuenta = Cuenta::new("Año", "1", Masa::Patrimonio);

    // "(1) Año" takes 8 bytes, so 14 columns leave 6 for "0.00 €".
    assert_eq!(cuenta.texto_con_ancho(14), "(1) Año0.00 €");
    assert_eq!(cuenta.texto_con_ancho(16), "(1) Año..0.00 €");
    assert_eq!(cuenta.texto_con_ancho(8), "(1) Año 0.00 €");
    assert_eq!(cuenta.texto_con_ancho(9), "(1) Año0.00 €");
}
