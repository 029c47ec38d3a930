use presupuestos::cuadro_contable::masa::{
    cabeza, clasificar_capturas, clasificar_digitos, empieza_con_cifra, interpretar_codigo, Masa,
};

#[test]
fn interpretar_codigo_devuelve_none_si_no_esta_bien_formado() {
    let random_str = "hsjhuek";
    assert_eq!(interpretar_codigo(random_str), None);
}

#[test]
#[allow(non_snake_case)]
fn interpretar_codigo_devuelve_Masa() {
    let codigo = "60";
    assert_eq!(interpretar_codigo(codigo), Some(Masa::Gasto));
}

#[test]
fn interpretar_codigo_por_grupos() {
    assert_eq!(interpretar_codigo("100"), Some(Masa::Patrimonio));
    assert_eq!(interpretar_codigo("13"), Some(Masa::Patrimonio));
    assert_eq!(interpretar_codigo("14"), Some(Masa::PasivoNoCorriente));
    assert_eq!(interpretar_codigo("170"), Some(Masa::PasivoNoCorriente));
    assert_eq!(interpretar_codigo("19"), None);
    assert_eq!(interpretar_codigo("1"), None);
    assert_eq!(interpretar_codigo("2"), Some(Masa::ActivoNoCorriente));
    assert_eq!(interpretar_codigo("300"), Some(Masa::ActivoCorriente));
    assert_eq!(interpretar_codigo("572"), Some(Masa::ActivoCorriente));
    assert_eq!(interpretar_codigo("54"), Some(Masa::ActivoNoCorriente));
    assert_eq!(interpretar_codigo("52"), None);
    assert_eq!(interpretar_codigo("629"), Some(Masa::Gasto));
    assert_eq!(interpretar_codigo("700"), Some(Masa::Ingreso));
    assert_eq!(interpretar_codigo("8"), Some(Masa::Gasto));
    assert_eq!(interpretar_codigo("9"), Some(Masa::Ingreso));
    assert_eq!(interpretar_codigo("0"), None);
    assert_eq!(interpretar_codigo(""), None);
}

#[test]
fn interpretar_codigo_deudores_y_acreedores() {
    assert_eq!(interpretar_codigo("400"), Some(Masa::PasivoCorriente));
    assert_eq!(interpretar_codigo("410"), Some(Masa::PasivoCorriente));
    assert_eq!(interpretar_codigo("42"), Some(Masa::PasivoNoCorriente));
    assert_eq!(interpretar_codigo("430"), Some(Masa::ActivoCorriente));
    assert_eq!(interpretar_codigo("440"), Some(Masa::ActivoCorriente));
    assert_eq!(interpretar_codigo("45"), Some(Masa::ActivoNoCorriente));
    assert_eq!(interpretar_codigo("460"), Some(Masa::ActivoCorriente));
    assert_eq!(interpretar_codigo("465"), Some(Masa::PasivoCorriente));
    assert_eq!(interpretar_codigo("466"), None);
    assert_eq!(interpretar_codigo("4600"), Some(Masa::ActivoCorriente));
    assert_eq!(interpretar_codigo("4651"), Some(Masa::PasivoCorriente));
    assert_eq!(interpretar_codigo("46"), None);
    assert_eq!(interpretar_codigo("470"), Some(Masa::ActivoCorriente));
    assert_eq!(interpretar_codigo("4709"), Some(Masa::ActivoCorriente));
    assert_eq!(interpretar_codigo("474"), Some(Masa::ActivoCorriente));
    assert_eq!(interpretar_codigo("475"), Some(Masa::PasivoCorriente));
    assert_eq!(interpretar_codigo("477"), Some(Masa::PasivoCorriente));
    assert_eq!(interpretar_codigo("478"), None);
    assert_eq!(interpretar_codigo("47"), None);
    assert_eq!(interpretar_codigo("480"), Some(Masa::ActivoCorriente));
    assert_eq!(interpretar_codigo("485"), Some(Masa::PasivoCorriente));
    assert_eq!(interpretar_codigo("481"), None);
    assert_eq!(interpretar_codigo("490"), Some(Masa::PasivoCorriente));
    assert_eq!(interpretar_codigo("4"), None);
}

#[test]
fn interpretar_codigo_pide_una_cifra_al_principio() {
    assert_eq!(interpretar_codigo("x60"), None);
    assert_eq!(interpretar_codigo("cuenta 60"), None);
    assert_eq!(interpretar_codigo(" 60"), None);
    assert_eq!(interpretar_codigo("-60"), None);
    assert_eq!(interpretar_codigo("60x"), Some(Masa::Gasto));
    assert_eq!(interpretar_codigo("465y"), Some(Masa::PasivoCorriente));
    assert_eq!(interpretar_codigo("4 65"), None);
    assert_eq!(interpretar_codigo("1b3"), None);
    // A digit of another script is none of the digits of a code.
    assert_eq!(interpretar_codigo("٣2"), None);
    assert_eq!(interpretar_codigo("4٣0"), None);
    assert!(empieza_con_cifra("0"));
    assert!(empieza_con_cifra("9a"));
    assert!(!empieza_con_cifra(""));
    assert!(!empieza_con_cifra("٣"));
    assert!(!empieza_con_cifra("a9"));
}

#[test]
fn las_tres_primeras_cifras_deciden() {
    for codigo in ["100", "129", "140", "199", "210", "300", "400", "429", "460", "465", "466",
        "470", "475", "478", "480", "485", "490", "520", "540", "572", "600", "700", "800", "900"]
    {
        let esperado = interpretar_codigo(codigo);
        for resto in ["0", "1", "5", "00", "9999", "12345678", "x", " y"] {
            let largo = format!("{}{}", codigo, resto);
            assert_eq!(interpretar_codigo(&largo), esperado, "{}", largo);
        }
    }
}

#[test]
fn clasificar_digitos_lee_cada_cifra_como_texto() {
    assert_eq!(clasificar_digitos("6", "0", ""), Some(Masa::Gasto));
    assert_eq!(clasificar_digitos("4", "6", "5"), Some(Masa::PasivoCorriente));
    assert_eq!(clasificar_digitos("4", "6", "0"), Some(Masa::ActivoCorriente));
    assert_eq!(clasificar_digitos("4", "6", ""), None);
    assert_eq!(clasificar_digitos("4", "6", "1"), None);
    assert_eq!(clasificar_digitos("4", "7", "2"), Some(Masa::ActivoCorriente));
    assert_eq!(clasificar_digitos("", "", ""), None);
    assert_eq!(clasificar_digitos("10", "0", ""), None);
}

#[test]
fn clasificar_capturas_sin_hallazgo() {
    assert_eq!(clasificar_capturas(&None), None);
    assert_eq!(clasificar_capturas(&Some(vec![])), None);
    let grupos = vec![
        Some("572".to_string()),
        Some("5".to_string()),
        Some("7".to_string()),
        Some("2".to_string()),
    ];
    assert_eq!(clasificar_capturas(&Some(grupos)), Some(Masa::ActivoCorriente));
    let sin_subgrupo = vec![Some("5".to_string()), Some("5".to_string()), None, None];
    assert_eq!(clasificar_capturas(&Some(sin_subgrupo)), None);
}

#[test]
fn la_cabeza_de_un_codigo_son_sus_tres_primeros_caracteres() {
    assert_eq!(cabeza(""), "");
    assert_eq!(cabeza("57"), "57");
    assert_eq!(cabeza("572"), "572");
    assert_eq!(cabeza("5720001"), "572");
    assert_eq!(cabeza("4ñ€x"), "4ñ€");
}
