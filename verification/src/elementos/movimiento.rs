//! Movements from one account to another.

use vstd::prelude::*;
use vstd::string::*;
use crate::texto::{
    alineado_derecha, alineado_izquierda, alinear_derecha, alinear_izquierda, importe_en_texto,
    texto_importe,
};

verus! {

/// The mathematical content of a movement.
pub struct MovimientoV {
    pub importe: i64,
    pub cuenta_deudora: Seq<char>,
    pub cuenta_acreedora: Seq<char>,
}

/// An amount in cents that one account owes to another.
#[derive(Debug, PartialEq)]
pub struct Movimiento {
    importe: i64,
    cuenta_deudora: String,
    cuenta_acreedora: String,
}

impl View for Movimiento {
    type V = MovimientoV;

    closed spec fn view(&self) -> MovimientoV {
        MovimientoV {
            importe: self.importe,
            cuenta_deudora: self.cuenta_deudora@,
            cuenta_acreedora: self.cuenta_acreedora@,
        }
    }
}

/// The number of columns that the name of an account takes in a report.
pub const ANCHO_CUENTA: usize = 20;

/// A movement as a report shows it, on a line of its own: the debited
/// account, the amount, the credited account.
pub open spec fn movimiento_en_texto(m: MovimientoV) -> Seq<char> {
    "\n        "@ + alineado_izquierda(m.cuenta_deudora, ANCHO_CUENTA as nat, " "@) + " debe "@
        + importe_en_texto(m.importe as int) + " € a "@ + alineado_derecha(
        m.cuenta_acreedora,
        ANCHO_CUENTA as nat,
        " "@,
    ) + "\n        "@
}

impl Movimiento {
    /// A movement of `importe` cents that the account of name
    /// `cuenta_deudora` owes to the account of name `cuenta_acreedora`.
    pub fn new(importe: i64, cuenta_deudora: String, cuenta_acreedora: String) -> (m: Movimiento)
        ensures
            m@ == (MovimientoV {
                importe,
                cuenta_deudora: cuenta_deudora@,
                cuenta_acreedora: cuenta_acreedora@,
            }),
    {
        Movimiento { importe, cuenta_deudora, cuenta_acreedora }
    }

    /// The movement as a report shows it.
    pub fn imprimir(&self) -> (r: String)
        ensures
            r@ == movimiento_en_texto(self@),
    {
        let mut s = String::from_str("\n        ");
        let deudora = alinear_izquierda(self.cuenta_deudora.as_str(), ANCHO_CUENTA, " ");
        s.append(deudora.as_str());
        s.append(" debe ");
        let importe = texto_importe(self.importe as i128);
        s.append(importe.as_str());
        s.append(" € a ");
        let acreedora = alinear_derecha(self.cuenta_acreedora.as_str(), ANCHO_CUENTA, " ");
        s.append(acreedora.as_str());
        s.append("\n        ");
        assert(s@ =~= movimiento_en_texto(self@));
        s
    }
}

} // verus!
