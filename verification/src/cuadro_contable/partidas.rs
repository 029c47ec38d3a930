//! Looking accounts up by code, and what the lines of an entry do to them.

use vstd::prelude::*;
use super::asiento::AsientoV;
use super::cuenta::{Apunte, Cuenta, CuentaV, Lado};
use super::movimiento::MovimientoV;
use crate::fecha::Fecha;

verus! {

/// The contents of a list of accounts.
pub open spec fn vistas_cuentas(cs: Seq<Cuenta>) -> Seq<CuentaV> {
    cs.map_values(|c: Cuenta| c@)
}

/// The position of the first account of `cs` whose code is `codigo`.
pub open spec fn posicion_cuenta(cs: Seq<CuentaV>, codigo: Seq<char>) -> Option<int>
    decreases cs.len(),
{
    if cs.len() == 0 {
        None
    } else {
        match posicion_cuenta(cs.drop_last(), codigo) {
            Some(i) => Some(i),
            None => if cs.last().codigo == codigo {
                Some(cs.len() - 1)
            } else {
                None
            },
        }
    }
}

/// `posicion_cuenta` finds an account exactly when one has the code, and
/// then the first such.
pub proof fn lema_posicion_cuenta(cs: Seq<CuentaV>, codigo: Seq<char>)
    ensures
        match posicion_cuenta(cs, codigo) {
            Some(i) => {
                &&& 0 <= i < cs.len()
                &&& cs[i].codigo == codigo
                &&& forall|k: int| 0 <= k < i ==> cs[k].codigo != codigo
            },
            None => forall|k: int| 0 <= k < cs.len() ==> cs[k].codigo != codigo,
        },
    decreases cs.len(),
{
    if cs.len() > 0 {
        lema_posicion_cuenta(cs.drop_last(), codigo);
        assert(forall|k: int| 0 <= k < cs.len() - 1 ==> cs.drop_last()[k] == cs[k]);
    }
}

/// Whether one of the accounts `cs` has the name `nombre`.
pub open spec fn hay_cuenta_de_nombre(cs: Seq<CuentaV>, nombre: Seq<char>) -> bool {
    exists|i: int| 0 <= i < cs.len() && (#[trigger] cs[i]).nombre == nombre
}

/// No two accounts of `cs` share a code.
pub open spec fn codigos_unicos(cs: Seq<CuentaV>) -> bool {
    forall|i: int, j: int| 0 <= i < j < cs.len() ==> cs[i].codigo != cs[j].codigo
}

/// Putting an account in the place of one of the same code keeps the codes
/// apart.
pub proof fn lema_unicos_update(cs: Seq<CuentaV>, i: int, c: CuentaV)
    requires
        codigos_unicos(cs),
        0 <= i < cs.len(),
        c.codigo == cs[i].codigo,
    ensures
        codigos_unicos(cs.update(i, c)),
{
}

/// The lines of one side of an entry as they are handed in: for each, the
/// code of an account and an amount in cents.
pub open spec fn vistas_partidas(ps: Seq<(&str, i64)>) -> Seq<(Seq<char>, i64)> {
    ps.map_values(|p: (&str, i64)| (p.0@, p.1))
}

/// The movements that the lines `ps` give against the accounts `cs`: one
/// for each line whose code names an account, in the order of the lines,
/// with the account's name copied in. A line whose code names no account
/// gives none.
pub open spec fn movimientos_resueltos(cs: Seq<CuentaV>, ps: Seq<(Seq<char>, i64)>) -> Seq<
    MovimientoV,
>
    decreases ps.len(),
{
    if ps.len() == 0 {
        Seq::empty()
    } else {
        let antes = movimientos_resueltos(cs, ps.drop_last());
        match posicion_cuenta(cs, ps.last().0) {
            Some(i) => antes.push(
                MovimientoV {
                    importe: ps.last().1,
                    codigo_cuenta: cs[i].codigo,
                    nombre_cuenta: cs[i].nombre,
                },
            ),
            None => antes,
        }
    }
}

/// The accounts `cs` after each line of `ps` whose code names one of them
/// has been posted to it on side `lado`, in the order of the lines.
pub open spec fn cuentas_tras_apuntes(cs: Seq<CuentaV>, lado: Lado, ps: Seq<(Seq<char>, i64)>) -> Seq<
    CuentaV,
>
    decreases ps.len(),
{
    if ps.len() == 0 {
        cs
    } else {
        let antes = cuentas_tras_apuntes(cs, lado, ps.drop_last());
        match posicion_cuenta(cs, ps.last().0) {
            Some(i) => antes.update(i, antes[i].con_apunte(Apunte { lado, importe: ps.last().1 })),
            None => antes,
        }
    }
}

/// Two lists hold the same accounts but for their postings.
pub open spec fn mismas_cuentas(a: Seq<CuentaV>, b: Seq<CuentaV>) -> bool {
    &&& a.len() == b.len()
    &&& forall|i: int|
        0 <= i < a.len() ==> (#[trigger] a[i]).codigo == b[i].codigo && a[i].nombre == b[i].nombre
            && a[i].masa == b[i].masa
}

/// Where an account stands depends on the codes alone.
pub proof fn lema_posicion_mismas_cuentas(a: Seq<CuentaV>, b: Seq<CuentaV>, codigo: Seq<char>)
    requires
        mismas_cuentas(a, b),
    ensures
        posicion_cuenta(a, codigo) == posicion_cuenta(b, codigo),
    decreases a.len(),
{
    if a.len() > 0 {
        assert(mismas_cuentas(a.drop_last(), b.drop_last())) by {
            assert forall|i: int| 0 <= i < a.drop_last().len() implies (#[trigger] a.drop_last()[i]).codigo
                == b.drop_last()[i].codigo && a.drop_last()[i].nombre == b.drop_last()[i].nombre
                && a.drop_last()[i].masa == b.drop_last()[i].masa by {
                assert(a[i].codigo == b[i].codigo);
            }
        }
        lema_posicion_mismas_cuentas(a.drop_last(), b.drop_last(), codigo);
        assert(a[a.len() - 1].codigo == b[a.len() - 1].codigo);
    }
}

/// Posting changes no account's code, name or category.
pub proof fn lema_apuntes_mismas_cuentas(cs: Seq<CuentaV>, lado: Lado, ps: Seq<(Seq<char>, i64)>)
    ensures
        mismas_cuentas(cuentas_tras_apuntes(cs, lado, ps), cs),
    decreases ps.len(),
{
    if ps.len() > 0 {
        lema_apuntes_mismas_cuentas(cs, lado, ps.drop_last());
        lema_posicion_cuenta(cs, ps.last().0);
    }
}

/// Which movements a list of lines gives depends on the accounts' codes
/// and names alone.
pub proof fn lema_resueltos_mismas_cuentas(a: Seq<CuentaV>, b: Seq<CuentaV>, ps: Seq<(Seq<char>, i64)>)
    requires
        mismas_cuentas(a, b),
    ensures
        movimientos_resueltos(a, ps) == movimientos_resueltos(b, ps),
    decreases ps.len(),
{
    if ps.len() > 0 {
        lema_resueltos_mismas_cuentas(a, b, ps.drop_last());
        lema_posicion_mismas_cuentas(a, b, ps.last().0);
        lema_posicion_cuenta(a, ps.last().0);
    }
}

/// The entry that the lines `debe` and `haber` make against the accounts
/// `cs`.
pub open spec fn asiento_de_partidas(
    cs: Seq<CuentaV>,
    concepto: Seq<char>,
    fecha: Fecha,
    codigo: Seq<char>,
    debe: Seq<(Seq<char>, i64)>,
    haber: Seq<(Seq<char>, i64)>,
) -> AsientoV {
    AsientoV {
        concepto,
        fecha,
        codigo,
        debe: movimientos_resueltos(cs, debe),
        haber: movimientos_resueltos(cs, haber),
    }
}

} // verus!
