//! Classification of account codes by the national chart of accounts.

use vstd::prelude::*;
use vstd::string::*;
use crate::importe::es_cifra;
use crate::patrones::{capturas, grupo_o_vacio, regex_capturas, texto_grupo};
use crate::texto::mismo_texto;

verus! {

/// The balance-sheet or income-statement category of an account.
#[derive(Debug, Clone, Copy, PartialEq, Eq, Structural)]
pub enum Masa {
    ActivoCorriente,
    ActivoNoCorriente,
    PasivoCorriente,
    PasivoNoCorriente,
    Patrimonio,
    Ingreso,
    Gasto,
}

/// The pattern that picks the leading digits out of a code: at its very
/// start the group digit, then the subgroup and account digits where there
/// are any.
pub const PATRON_CODIGO: &'static str = r"^(\d{1})(\d{0,1})(\d{0,1})\d*";

/// The category of subgroup `subgrupo` of group 1, basic financing.
pub open spec fn masa_financiacion(subgrupo: Seq<char>) -> Option<Masa> {
    if subgrupo == "0"@ || subgrupo == "1"@ || subgrupo == "2"@ || subgrupo == "3"@ {
        Some(Masa::Patrimonio)
    } else if subgrupo == "4"@ || subgrupo == "5"@ || subgrupo == "6"@ || subgrupo == "7"@
        || subgrupo == "8"@ {
        Some(Masa::PasivoNoCorriente)
    } else {
        None
    }
}

/// The category of an account of group 4, debtors and creditors.
pub open spec fn masa_acreedores_deudores(subgrupo: Seq<char>, cuenta: Seq<char>) -> Option<Masa> {
    if subgrupo == "0"@ || subgrupo == "1"@ || subgrupo == "9"@ {
        Some(Masa::PasivoCorriente)
    } else if subgrupo == "2"@ {
        Some(Masa::PasivoNoCorriente)
    } else if subgrupo == "3"@ || subgrupo == "4"@ {
        Some(Masa::ActivoCorriente)
    } else if subgrupo == "5"@ {
        Some(Masa::ActivoNoCorriente)
    } else if subgrupo == "6"@ {
        if cuenta == "0"@ {
            Some(Masa::ActivoCorriente)
        } else if cuenta == "5"@ {
            Some(Masa::PasivoCorriente)
        } else {
            None
        }
    } else if subgrupo == "7"@ {
        if cuenta == "0"@ || cuenta == "1"@ || cuenta == "2"@ || cuenta == "3"@ || cuenta == "4"@ {
            Some(Masa::ActivoCorriente)
        } else if cuenta == "5"@ || cuenta == "6"@ || cuenta == "7"@ {
            Some(Masa::PasivoCorriente)
        } else {
            None
        }
    } else if subgrupo == "8"@ {
        if cuenta == "0"@ {
            Some(Masa::ActivoCorriente)
        } else if cuenta == "5"@ {
            Some(Masa::PasivoCorriente)
        } else {
            None
        }
    } else {
        None
    }
}

/// The category of subgroup `subgrupo` of group 5, financial accounts.
pub open spec fn masa_financieras(subgrupo: Seq<char>) -> Option<Masa> {
    if subgrupo == "4"@ {
        Some(Masa::ActivoNoCorriente)
    } else if subgrupo == "7"@ {
        Some(Masa::ActivoCorriente)
    } else {
        None
    }
}

/// The category that the chart of accounts gives to a code whose first
/// digit is `grupo`, second `subgrupo` and third `cuenta`; the digits after
/// the third change nothing. `None` where the chart places no such code.
pub open spec fn masa_de_digitos(grupo: Seq<char>, subgrupo: Seq<char>, cuenta: Seq<char>) -> Option<
    Masa,
> {
    if grupo == "1"@ {
        masa_financiacion(subgrupo)
    } else if grupo == "2"@ {
        Some(Masa::ActivoNoCorriente)
    } else if grupo == "3"@ {
        Some(Masa::ActivoCorriente)
    } else if grupo == "4"@ {
        masa_acreedores_deudores(subgrupo, cuenta)
    } else if grupo == "5"@ {
        masa_financieras(subgrupo)
    } else if grupo == "6"@ || grupo == "8"@ {
        Some(Masa::Gasto)
    } else if grupo == "7"@ || grupo == "9"@ {
        Some(Masa::Ingreso)
    } else {
        None
    }
}

/// The category of a code, given what the search for `PATRON_CODIGO` found
/// in it: no category where it found nothing.
pub open spec fn masa_de_capturas(capturas: Option<Seq<Option<Seq<char>>>>) -> Option<Masa> {
    match capturas {
        Some(grupos) => masa_de_digitos(
            texto_grupo(grupos, 1),
            texto_grupo(grupos, 2),
            texto_grupo(grupos, 3),
        ),
        None => None,
    }
}

/// Whether `codigo` starts with one of the digits `0` to `9`.
pub open spec fn empieza_por_cifra(codigo: Seq<char>) -> bool {
    codigo.len() > 0 && es_cifra(codigo[0])
}

/// The part of a code that decides its category: its first three
/// characters, or all of it where it is shorter.
pub open spec fn cabeza_de_codigo(codigo: Seq<char>) -> Seq<char> {
    if codigo.len() > 3 {
        codigo.take(3)
    } else {
        codigo
    }
}

/// The category of the code `codigo`. A text that does not start with a
/// digit is no code and has none; a code has that of the digits that the
/// search for `PATRON_CODIGO` finds in its first three characters.
pub open spec fn masa_de_codigo(codigo: Seq<char>) -> Option<Masa> {
    if empieza_por_cifra(codigo) {
        masa_de_capturas(regex_capturas(PATRON_CODIGO@, cabeza_de_codigo(codigo)))
    } else {
        None
    }
}

/// The first three characters of a code decide its category: what follows
/// them changes nothing.
pub proof fn lema_tres_primeros_deciden(codigo: Seq<char>)
    requires
        codigo.len() >= 3,
    ensures
        masa_de_codigo(codigo) == masa_de_codigo(codigo.take(3)),
{
    assert(codigo.take(3).take(3) =~= codigo.take(3));
    if codigo.len() == 3 {
        assert(codigo.take(3) =~= codigo);
    }
}

/// Two codes with the same first three characters are of the same
/// category.
pub proof fn lema_misma_cabeza(a: Seq<char>, b: Seq<char>)
    requires
        a.len() >= 3,
        b.len() >= 3,
        a.take(3) == b.take(3),
    ensures
        masa_de_codigo(a) == masa_de_codigo(b),
{
    lema_tres_primeros_deciden(a);
    lema_tres_primeros_deciden(b);
}

fn clasificar_financiacion(subgrupo: &str) -> (r: Option<Masa>)
    ensures
        r == masa_financiacion(subgrupo@),
{
    if mismo_texto(subgrupo, "0") || mismo_texto(subgrupo, "1") || mismo_texto(subgrupo, "2")
        || mismo_texto(subgrupo, "3") {
        Some(Masa::Patrimonio)
    } else if mismo_texto(subgrupo, "4") || mismo_texto(subgrupo, "5") || mismo_texto(
        subgrupo,
        "6",
    ) || mismo_texto(subgrupo, "7") || mismo_texto(subgrupo, "8") {
        Some(Masa::PasivoNoCorriente)
    } else {
        None
    }
}

fn clasificar_acreedores_deudores(subgrupo: &str, cuenta: &str) -> (r: Option<Masa>)
    ensures
        r == masa_acreedores_deudores(subgrupo@, cuenta@),
{
    if mismo_texto(subgrupo, "0") || mismo_texto(subgrupo, "1") || mismo_texto(subgrupo, "9") {
        Some(Masa::PasivoCorriente)
    } else if mismo_texto(subgrupo, "2") {
        Some(Masa::PasivoNoCorriente)
    } else if mismo_texto(subgrupo, "3") || mismo_texto(subgrupo, "4") {
        Some(Masa::ActivoCorriente)
    } else if mismo_texto(subgrupo, "5") {
        Some(Masa::ActivoNoCorriente)
    } else if mismo_texto(subgrupo, "6") {
        if mismo_texto(cuenta, "0") {
            Some(Masa::ActivoCorriente)
        } else if mismo_texto(cuenta, "5") {
            Some(Masa::PasivoCorriente)
        } else {
            None
        }
    } else if mismo_texto(subgrupo, "7") {
        if mismo_texto(cuenta, "0") || mismo_texto(cuenta, "1") || mismo_texto(cuenta, "2")
            || mismo_texto(cuenta, "3") || mismo_texto(cuenta, "4") {
            Some(Masa::ActivoCorriente)
        } else if mismo_texto(cuenta, "5") || mismo_texto(cuenta, "6") || mismo_texto(cuenta, "7") {
            Some(Masa::PasivoCorriente)
        } else {
            None
        }
    } else if mismo_texto(subgrupo, "8") {
        if mismo_texto(cuenta, "0") {
            Some(Masa::ActivoCorriente)
        } else if mismo_texto(cuenta, "5") {
            Some(Masa::PasivoCorriente)
        } else {
            None
        }
    } else {
        None
    }
}

fn clasificar_financieras(subgrupo: &str) -> (r: Option<Masa>)
    ensures
        r == masa_financieras(subgrupo@),
{
    if mismo_texto(subgrupo, "4") {
        Some(Masa::ActivoNoCorriente)
    } else if mismo_texto(subgrupo, "7") {
        Some(Masa::ActivoCorriente)
    } else {
        None
    }
}

/// Classifies a code from its first three digits, each given as text:
/// `grupo`, `subgrupo` and `cuenta` hold one digit or nothing.
pub fn clasificar_digitos(grupo: &str, subgrupo: &str, cuenta: &str) -> (r: Option<Masa>)
    ensures
        r == masa_de_digitos(grupo@, subgrupo@, cuenta@),
{
    if mismo_texto(grupo, "1") {
        clasificar_financiacion(subgrupo)
    } else if mismo_texto(grupo, "2") {
        Some(Masa::ActivoNoCorriente)
    } else if mismo_texto(grupo, "3") {
        Some(Masa::ActivoCorriente)
    } else if mismo_texto(grupo, "4") {
        clasificar_acreedores_deudores(subgrupo, cuenta)
    } else if mismo_texto(grupo, "5") {
        clasificar_financieras(subgrupo)
    } else if mismo_texto(grupo, "6") || mismo_texto(grupo, "8") {
        Some(Masa::Gasto)
    } else if mismo_texto(grupo, "7") || mismo_texto(grupo, "9") {
        Some(Masa::Ingreso)
    } else {
        None
    }
}

/// Classifies a code from what the search for `PATRON_CODIGO` found in it.
pub fn clasificar_capturas(capturas: &Option<Vec<Option<String>>>) -> (r: Option<Masa>)
    ensures
        r == masa_de_capturas(capturas.deep_view()),
{
    match capturas {
        Some(grupos) => {
            let grupo = grupo_o_vacio(grupos, 1);
            let subgrupo = grupo_o_vacio(grupos, 2);
            let cuenta = grupo_o_vacio(grupos, 3);
            clasificar_digitos(grupo, subgrupo, cuenta)
        },
        None => None,
    }
}

/// Whether `codigo` starts with one of the digits `0` to `9`.
pub fn empieza_con_cifra(codigo: &str) -> (r: bool)
    ensures
        r == empieza_por_cifra(codigo@),
{
    if codigo.unicode_len() == 0 {
        return false;
    }
    let c = codigo.get_char(0);
    '0' <= c && c <= '9'
}

/// The part of a code that decides its category: its first three
/// characters, or all of it where it is shorter.
pub fn cabeza<'a>(codigo: &'a str) -> (r: &'a str)
    ensures
        r@ == cabeza_de_codigo(codigo@),
{
    if codigo.unicode_len() > 3 {
        let r = codigo.substring_char(0, 3);
        assert(r@ =~= codigo@.take(3));
        r
    } else {
        codigo
    }
}

/// Reads a code and says to which category the chart of accounts assigns
/// it. A text that does not start with a digit has none. The digits of a
/// code are found by searching its first three characters for
/// `PATRON_CODIGO`, so that nothing after them counts.
pub fn interpretar_codigo(codigo: &str) -> (r: Option<Masa>)
    ensures
        r == masa_de_codigo(codigo@),
        !empieza_por_cifra(codigo@) ==> r is None,
{
    if !empieza_con_cifra(codigo) {
        return None;
    }
    let encontrado = capturas(PATRON_CODIGO, cabeza(codigo));
    clasificar_capturas(&encontrado)
}

} // verus!
