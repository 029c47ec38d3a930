//! Journal entries.

use vstd::prelude::*;
use vstd::string::*;
use super::movimiento::{lema_cota_importes, suma_importes, vistas, Movimiento, MovimientoV};
use crate::fecha::{fecha_en_texto, fecha_valida, hoy_local, Fecha};
use crate::texto::{
    anexar_natural, anexar_repetido, centrado, centrar, cifras, partes, partir, repetido,
    vistas_textos,
};

verus! {

/// The mathematical content of a journal entry.
pub struct AsientoV {
    pub concepto: Seq<char>,
    pub fecha: Fecha,
    pub codigo: Seq<char>,
    pub debe: Seq<MovimientoV>,
    pub haber: Seq<MovimientoV>,
}

impl AsientoV {
    /// The total of the debit side.
    pub open spec fn total_debe(self) -> int {
        suma_importes(self.debe)
    }

    /// The total of the credit side.
    pub open spec fn total_haber(self) -> int {
        suma_importes(self.haber)
    }

    /// Whether the entry balances: both sides add up to the same amount,
    /// to the cent.
    pub open spec fn cuadra(self) -> bool {
        self.total_debe() == self.total_haber()
    }
}

/// The number of columns between the two edges of the box that a report
/// draws round an entry.
pub const ANCHO_INTERIOR: usize = 118;

/// A rule of the box: dashes from edge to edge.
pub open spec fn regla_en_texto() -> Seq<char> {
    "+"@ + repetido("-"@, ANCHO_INTERIOR as nat) + "+\n"@
}

/// A row of the box: `t` in the middle, between the two edges.
pub open spec fn fila_en_texto(t: Seq<char>) -> Seq<char> {
    "|"@ + centrado(t, ANCHO_INTERIOR as nat, " "@) + "|\n"@
}

/// One row of the box for each of `lineas`, in order.
pub open spec fn filas_en_texto(lineas: Seq<Seq<char>>) -> Seq<char>
    decreases lineas.len(),
{
    if lineas.len() == 0 {
        Seq::empty()
    } else {
        filas_en_texto(lineas.drop_last()) + fila_en_texto(lineas.last())
    }
}

/// An entry as a report shows it: a box with its number, each line of its
/// concept and its date, closed by two rules.
pub open spec fn asiento_en_texto(a: AsientoV) -> Seq<char> {
    regla_en_texto() + fila_en_texto("N.º "@ + a.codigo) + filas_en_texto(
        partes(a.concepto, '\n'),
    ) + fila_en_texto(fecha_en_texto(a.fecha, seq!['-'])) + regla_en_texto() + regla_en_texto()
}

/// A dated entry of the journal: a concept, a code, the movements of its
/// debit side and those of its credit side, with the total of each side.
#[derive(Debug, PartialEq)]
pub struct Asiento {
    debe: Vec<Movimiento>,
    haber: Vec<Movimiento>,
    concepto: String,
    fecha: Fecha,
    codigo: String,
    saldo_debe: i128,
    saldo_haber: i128,
}

impl View for Asiento {
    type V = AsientoV;

    closed spec fn view(&self) -> AsientoV {
        AsientoV {
            concepto: self.concepto@,
            fecha: self.fecha,
            codigo: self.codigo@,
            debe: vistas(self.debe@),
            haber: vistas(self.haber@),
        }
    }
}

/// The code of the `orden`-th entry made on the day `fecha`: the date in
/// digits, then the number.
pub open spec fn codigo_de_fecha(fecha: Fecha, orden: nat) -> Seq<char> {
    fecha_en_texto(fecha, Seq::empty()) + cifras(orden)
}

/// The code of the `orden`-th entry made on the day `fecha`.
pub fn generar_codigo_en(fecha: Fecha, orden: usize) -> (r: String)
    ensures
        r@ == codigo_de_fecha(fecha, orden as nat),
{
    let mut s = fecha.texto_compacto();
    anexar_natural(&mut s, orden as u128);
    s
}

/// The sum of the amounts of `ms`, which cannot leave 128 bits.
pub fn sumar_importes(ms: &Vec<Movimiento>) -> (r: i128)
    ensures
        r == suma_importes(vistas(ms@)),
{
    let mut total: i128 = 0;
    let mut i: usize = 0;
    let ghost todos = vistas(ms@);
    assert(todos.take(0) =~= Seq::<MovimientoV>::empty());
    while i < ms.len()
        invariant
            i <= ms.len(),
            todos == vistas(ms@),
            total == suma_importes(todos.take(i as int)),
        decreases ms.len() - i,
    {
        proof {
            assert(todos.take(i + 1).drop_last() =~= todos.take(i as int));
            assert(todos.take(i + 1).last() == ms@[i as int]@);
            lema_cota_importes(todos.take(i + 1));
            assert(todos.take(i + 1).len() * 0x8000_0000_0000_0000 <= 0xffff_ffff_ffff_ffff
                * 0x8000_0000_0000_0000);
        }
        total = total + ms[i].importe() as i128;
        i = i + 1;
    }
    assert(todos.take(i as int) =~= todos);
    total
}

impl Asiento {
    /// The stored totals are those of the two sides.
    pub closed spec fn wf(&self) -> bool {
        &&& self.saldo_debe == suma_importes(vistas(self.debe@))
        &&& self.saldo_haber == suma_importes(vistas(self.haber@))
    }

    /// An entry with the given concept, date, movements and code.
    pub fn con_codigo(
        concepto: &str,
        fecha: Fecha,
        debe: Vec<Movimiento>,
        haber: Vec<Movimiento>,
        codigo: &str,
    ) -> (a: Asiento)
        ensures
            a.wf(),
            a@ == (AsientoV {
                concepto: concepto@,
                fecha,
                codigo: codigo@,
                debe: vistas(debe@),
                haber: vistas(haber@),
            }),
    {
        let saldo_debe = sumar_importes(&debe);
        let saldo_haber = sumar_importes(&haber);
        Asiento {
            debe,
            haber,
            concepto: concepto.to_owned(),
            fecha,
            codigo: codigo.to_owned(),
            saldo_debe,
            saldo_haber,
        }
    }

    /// An entry without a code. Its date is `fecha` where one is given and
    /// today's date on the local clock where none is.
    pub fn new(concepto: &str, fecha: Option<Fecha>, debe: Vec<Movimiento>, haber: Vec<Movimiento>) -> (a: Asiento)
        ensures
            a.wf(),
            a@.concepto == concepto@,
            a@.codigo == Seq::<char>::empty(),
            a@.debe == vistas(debe@),
            a@.haber == vistas(haber@),
            fecha matches Some(f) ==> a@.fecha == f,
            fecha is None ==> fecha_valida(a@.fecha),
    {
        proof {
            reveal_strlit("");
            assert(""@ =~= Seq::<char>::empty());
        }
        let dia = match fecha {
            Some(f) => f,
            None => hoy_local(),
        };
        Asiento::con_codigo(concepto, dia, debe, haber, "")
    }

    /// Whether the entry balances: the amounts of the debit side add up to
    /// those of the credit side.
    pub fn validar_saldos(&self) -> (r: bool)
        requires
            self.wf(),
        ensures
            r == self@.cuadra(),
    {
        self.saldo_debe == self.saldo_haber
    }

    /// The total of the debit side, in cents.
    pub fn total_debe(&self) -> (r: i128)
        requires
            self.wf(),
        ensures
            r == self@.total_debe(),
    {
        self.saldo_debe
    }

    /// The total of the credit side, in cents.
    pub fn total_haber(&self) -> (r: i128)
        requires
            self.wf(),
        ensures
            r == self@.total_haber(),
    {
        self.saldo_haber
    }

    /// The concept of the entry.
    pub fn concepto(&self) -> (r: &str)
        ensures
            r@ == self@.concepto,
    {
        self.concepto.as_str()
    }

    /// The code of the entry; empty where it has none.
    pub fn codigo(&self) -> (r: &str)
        ensures
            r@ == self@.codigo,
    {
        self.codigo.as_str()
    }

    /// The date of the entry.
    pub fn fecha(&self) -> (r: Fecha)
        ensures
            r == self@.fecha,
    {
        self.fecha
    }

    /// The movements of the debit side, in order.
    pub fn debe(&self) -> (r: &Vec<Movimiento>)
        ensures
            vistas(r@) == self@.debe,
    {
        &self.debe
    }

    /// The movements of the credit side, in order.
    pub fn haber(&self) -> (r: &Vec<Movimiento>)
        ensures
            vistas(r@) == self@.haber,
    {
        &self.haber
    }

    /// The entry as a report shows it: see `asiento_en_texto`.
    pub fn to_string(&self) -> (r: String)
        ensures
            r@ == asiento_en_texto(self@),
    {
        let mut s = String::new();
        anexar_regla(&mut s);
        let mut numero = String::from_str("N.º ");
        numero.append(self.codigo.as_str());
        anexar_fila(&mut s, numero.as_str());
        let lineas = partir(self.concepto.as_str(), '\n');
        let ghost antes = s@;
        let ghost todas = vistas_textos(lineas@);
        let mut k: usize = 0;
        assert(s@ =~= antes + filas_en_texto(todas.take(0)));
        while k < lineas.len()
            invariant
                k <= lineas.len(),
                todas == vistas_textos(lineas@),
                s@ == antes + filas_en_texto(todas.take(k as int)),
            decreases lineas.len() - k,
        {
            proof {
                assert(todas.take(k + 1).drop_last() =~= todas.take(k as int));
                assert(todas.take(k + 1).last() == lineas@[k as int]@);
            }
            anexar_fila(&mut s, lineas[k]);
            assert(s@ =~= antes + filas_en_texto(todas.take(k + 1)));
            k = k + 1;
        }
        assert(todas.take(k as int) =~= todas);
        let fecha = self.fecha.texto_iso();
        anexar_fila(&mut s, fecha.as_str());
        anexar_regla(&mut s);
        anexar_regla(&mut s);
        assert(s@ =~= asiento_en_texto(self@));
        s
    }
}

/// Writes a rule of the box at the end of `s`.
fn anexar_regla(s: &mut String)
    ensures
        final(s)@ == old(s)@ + regla_en_texto(),
{
    s.append("+");
    anexar_repetido(s, "-", ANCHO_INTERIOR);
    s.append("+\n");
    assert(final(s)@ =~= old(s)@ + regla_en_texto());
}

/// Writes a row of the box with `t` in the middle at the end of `s`.
fn anexar_fila(s: &mut String, t: &str)
    ensures
        final(s)@ == old(s)@ + fila_en_texto(t@),
{
    s.append("|");
    let medio = centrar(t, ANCHO_INTERIOR, " ");
    s.append(medio.as_str());
    s.append("|\n");
    assert(final(s)@ =~= old(s)@ + fila_en_texto(t@));
}

} // verus!
