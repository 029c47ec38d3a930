//! Entries: a concept, a date and the movements made under them.

use vstd::prelude::*;
use vstd::string::*;
use super::movimiento::{movimiento_en_texto, Movimiento, MovimientoV};
use crate::fecha::{fecha_en_texto, fecha_valida, hoy_local, Fecha};
use crate::texto::{centrado, centrar};

verus! {

/// The mathematical content of an entry.
pub struct AsientoV {
    pub concepto: Seq<char>,
    pub fecha: Fecha,
    pub movimientos: Seq<MovimientoV>,
}

/// An entry of the journal, with one movement or more.
#[derive(Debug, PartialEq)]
pub struct Asiento {
    movimientos: Vec<Movimiento>,
    concepto: String,
    fecha: Fecha,
}

/// The contents of a list of movements.
pub open spec fn vistas(ms: Seq<Movimiento>) -> Seq<MovimientoV> {
    ms.map_values(|m: Movimiento| m@)
}

impl View for Asiento {
    type V = AsientoV;

    closed spec fn view(&self) -> AsientoV {
        AsientoV {
            concepto: self.concepto@,
            fecha: self.fecha,
            movimientos: vistas(self.movimientos@),
        }
    }
}

/// The number of columns of the heading of an entry in a report.
pub const ANCHO_TITULO: usize = 70;

/// A line of the heading: `t` in the middle, dashes on both sides.
pub open spec fn titulo_en_texto(t: Seq<char>) -> Seq<char> {
    centrado(t, ANCHO_TITULO as nat, "-"@) + "\n"@
}

/// The movements `ms` as a report shows them, one after the other.
pub open spec fn movimientos_en_texto(ms: Seq<MovimientoV>) -> Seq<char>
    decreases ms.len(),
{
    if ms.len() == 0 {
        Seq::empty()
    } else {
        movimientos_en_texto(ms.drop_last()) + movimiento_en_texto(ms.last())
    }
}

/// An entry as a report shows it: its concept and its date as headings,
/// then its movements.
pub open spec fn asiento_en_texto(a: AsientoV) -> Seq<char> {
    titulo_en_texto(a.concepto) + titulo_en_texto(fecha_en_texto(a.fecha, seq!['-']))
        + movimientos_en_texto(a.movimientos)
}

impl Asiento {
    /// An entry without movements, dated `fecha`.
    pub fn con_fecha(concepto: &str, fecha: Fecha) -> (a: Asiento)
        ensures
            a@ == (AsientoV { concepto: concepto@, fecha, movimientos: Seq::empty() }),
    {
        let a = Asiento { concepto: concepto.to_owned(), movimientos: Vec::new(), fecha };
        assert(a@.movimientos =~= Seq::empty());
        a
    }

    /// An entry without movements, dated today by the local clock.
    pub fn new(concepto: &str) -> (a: Asiento)
        ensures
            a@.concepto == concepto@,
            a@.movimientos == Seq::<MovimientoV>::empty(),
            fecha_valida(a@.fecha),
    {
        Asiento::con_fecha(concepto, hoy_local())
    }

    /// Adds a movement at the end of the entry.
    pub fn insertar_movimiento(&mut self, movimiento: Movimiento)
        ensures
            final(self)@ == (AsientoV {
                movimientos: old(self)@.movimientos.push(movimiento@),
                ..old(self)@
            }),
    {
        self.movimientos.push(movimiento);
        assert(self@.movimientos =~= old(self)@.movimientos.push(movimiento@));
    }

    /// The number of movements of the entry.
    pub fn n_movimientos(&self) -> (r: usize)
        ensures
            r == self@.movimientos.len(),
    {
        self.movimientos.len()
    }

    /// Gives the date of the entry, after setting it to `fecha` where one
    /// is given.
    pub fn fecha(&mut self, fecha: Option<Fecha>) -> (r: Fecha)
        ensures
            r == final(self)@.fecha,
            final(self)@ == (AsientoV {
                fecha: match fecha {
                    Some(f) => f,
                    None => old(self)@.fecha,
                },
                ..old(self)@
            }),
    {
        if let Some(f) = fecha {
            self.fecha = f;
        }
        self.fecha
    }

    /// The entry and its movements as a report shows them.
    pub fn imprimir(&self) -> (r: String)
        ensures
            r@ == asiento_en_texto(self@),
    {
        let mut cadena = centrar(self.concepto.as_str(), ANCHO_TITULO, "-");
        cadena.append("\n");
        let fecha = self.fecha.texto_iso();
        let titulo = centrar(fecha.as_str(), ANCHO_TITULO, "-");
        cadena.append(titulo.as_str());
        cadena.append("\n");
        let ghost cabecera = cadena@;
        let ghost todos = self@.movimientos;
        let mut k: usize = 0;
        assert(cadena@ =~= cabecera + movimientos_en_texto(todos.take(0)));
        while k < self.movimientos.len()
            invariant
                k <= self.movimientos.len(),
                todos == self@.movimientos,
                cadena@ == cabecera + movimientos_en_texto(todos.take(k as int)),
            decreases self.movimientos.len() - k,
        {
            proof {
                assert(todos.take(k + 1).drop_last() =~= todos.take(k as int));
                assert(todos.take(k + 1).last() == self.movimientos@[k as int]@);
            }
            let linea = self.movimientos[k].imprimir();
            cadena.append(linea.as_str());
            assert(cadena@ =~= cabecera + movimientos_en_texto(todos.take(k + 1)));
            k = k + 1;
        }
        assert(todos.take(k as int) =~= todos);
        assert(cadena@ =~= asiento_en_texto(self@));
        cadena
    }
}

} // verus!
