//! Movements: one amount posted against one account.

use vstd::prelude::*;
use vstd::string::*;
use super::cuenta::Cuenta;
use crate::texto::{importe_en_texto, texto_importe};

verus! {

/// The mathematical content of a movement.
pub struct MovimientoV {
    pub importe: i64,
    pub codigo_cuenta: Seq<char>,
    pub nombre_cuenta: Seq<char>,
}

/// An amount in cents together with the code of the account it is posted
/// to and a copy of that account's name. It never changes once made.
#[derive(Debug, PartialEq)]
pub struct Movimiento {
    importe: i64,
    codigo_cuenta: String,
    nombre_cuenta: String,
}

impl View for Movimiento {
    type V = MovimientoV;

    closed spec fn view(&self) -> MovimientoV {
        MovimientoV {
            importe: self.importe,
            codigo_cuenta: self.codigo_cuenta@,
            nombre_cuenta: self.nombre_cuenta@,
        }
    }
}

/// The contents of a list of movements.
pub open spec fn vistas(ms: Seq<Movimiento>) -> Seq<MovimientoV> {
    ms.map_values(|m: Movimiento| m@)
}

/// The sum of the amounts of a list of movements.
pub open spec fn suma_importes(ms: Seq<MovimientoV>) -> int
    decreases ms.len(),
{
    if ms.len() == 0 {
        0
    } else {
        suma_importes(ms.drop_last()) + ms.last().importe
    }
}

/// The sum of a list of movements stays within 2^63 times its length.
pub proof fn lema_cota_importes(ms: Seq<MovimientoV>)
    ensures
        -(ms.len() * 0x8000_0000_0000_0000) <= suma_importes(ms) <= ms.len()
            * 0x8000_0000_0000_0000,
    decreases ms.len(),
{
    if ms.len() > 0 {
        lema_cota_importes(ms.drop_last());
    }
}

/// A movement as a line of a report: code in brackets, name, amount.
pub open spec fn movimiento_en_texto(m: MovimientoV) -> Seq<char> {
    "("@ + m.codigo_cuenta + ") "@ + m.nombre_cuenta + " "@ + importe_en_texto(m.importe as int)
        + " €"@
}

impl Movimiento {
    /// A movement of `importe` cents against `cuenta`, whose code and name
    /// it copies. The account itself is left as it was.
    pub fn new(importe: i64, cuenta: &mut Cuenta) -> (m: Movimiento)
        ensures
            m@ == (MovimientoV {
                importe,
                codigo_cuenta: old(cuenta)@.codigo,
                nombre_cuenta: old(cuenta)@.nombre,
            }),
            *final(cuenta) == *old(cuenta),
    {
        Movimiento { importe, codigo_cuenta: cuenta.codigo(), nombre_cuenta: cuenta.nombre() }
    }

    /// A movement of `importe` cents against the account of code `codigo`
    /// and name `nombre`.
    pub fn de_partes(importe: i64, codigo: &str, nombre: &str) -> (m: Movimiento)
        ensures
            m@ == (MovimientoV { importe, codigo_cuenta: codigo@, nombre_cuenta: nombre@ }),
    {
        Movimiento { importe, codigo_cuenta: codigo.to_owned(), nombre_cuenta: nombre.to_owned() }
    }

    /// The amount of the movement, in cents.
    pub fn importe(&self) -> (r: i64)
        ensures
            r == self@.importe,
    {
        self.importe
    }

    /// The code of the account that the movement is posted to.
    pub fn codigo_cuenta(&self) -> (r: &str)
        ensures
            r@ == self@.codigo_cuenta,
    {
        self.codigo_cuenta.as_str()
    }

    /// The name that the account had when the movement was made.
    pub fn nombre_cuenta(&self) -> (r: &str)
        ensures
            r@ == self@.nombre_cuenta,
    {
        self.nombre_cuenta.as_str()
    }

    /// The movement as a line of a report, as in `(572) Bancos 20.00 €`.
    pub fn to_string(&self) -> (r: String)
        ensures
            r@ == movimiento_en_texto(self@),
    {
        let mut s = String::from_str("(");
        s.append(self.codigo_cuenta.as_str());
        s.append(") ");
        s.append(self.nombre_cuenta.as_str());
        s.append(" ");
        let importe = texto_importe(self.importe as i128);
        s.append(importe.as_str());
        s.append(" €");
        assert(s@ =~= movimiento_en_texto(self@));
        s
    }
}

} // verus!
