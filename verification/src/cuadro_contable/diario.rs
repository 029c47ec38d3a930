//! The journal, and the ledger that follows from it.

use vstd::prelude::*;
use vstd::string::*;
use super::asiento::{
    asiento_en_texto, codigo_de_fecha, generar_codigo_en, Asiento, AsientoV,
};
use super::cuenta::{lema_suma_concatena, lema_suma_push, suma_lado, Apunte, Cuenta, CuentaV, Lado};
use super::movimiento::{vistas, Movimiento, MovimientoV};
use super::partidas::{
    asiento_de_partidas, codigos_unicos, cuentas_tras_apuntes, lema_apuntes_mismas_cuentas,
    lema_posicion_cuenta, lema_resueltos_mismas_cuentas, movimientos_resueltos, posicion_cuenta,
    vistas_partidas,
};
use super::Cuadro;
use crate::fecha::{fecha_valida, hoy_local, Fecha};
use crate::texto::mismo_texto;

verus! {

/// The contents of a list of entries.
pub open spec fn vistas_asientos(asientos: Seq<Asiento>) -> Seq<AsientoV> {
    asientos.map_values(|a: Asiento| a@)
}

/// The position of the first entry of `asientos` whose code is `codigo`.
pub open spec fn posicion_asiento(asientos: Seq<AsientoV>, codigo: Seq<char>) -> Option<int>
    decreases asientos.len(),
{
    if asientos.len() == 0 {
        None
    } else {
        match posicion_asiento(asientos.drop_last(), codigo) {
            Some(i) => Some(i),
            None => if asientos.last().codigo == codigo {
                Some(asientos.len() - 1)
            } else {
                None
            },
        }
    }
}

/// `posicion_asiento` finds an entry exactly when one has the code, and
/// then the first such.
pub proof fn lema_posicion_asiento(asientos: Seq<AsientoV>, codigo: Seq<char>)
    ensures
        match posicion_asiento(asientos, codigo) {
            Some(i) => {
                &&& 0 <= i < asientos.len()
                &&& asientos[i].codigo == codigo
                &&& forall|k: int| 0 <= k < i ==> asientos[k].codigo != codigo
            },
            None => forall|k: int| 0 <= k < asientos.len() ==> asientos[k].codigo != codigo,
        },
    decreases asientos.len(),
{
    if asientos.len() > 0 {
        lema_posicion_asiento(asientos.drop_last(), codigo);
        assert(forall|k: int| 0 <= k < asientos.len() - 1 ==> asientos.drop_last()[k] == asientos[k]);
    }
}

/// No two entries of `asientos` share a code.
pub open spec fn codigos_asiento_unicos(asientos: Seq<AsientoV>) -> bool {
    forall|i: int, j: int| 0 <= i < j < asientos.len() ==> asientos[i].codigo != asientos[j].codigo
}

/// Every entry of `asientos` balances.
pub open spec fn todos_cuadran(asientos: Seq<AsientoV>) -> bool {
    forall|i: int| 0 <= i < asientos.len() ==> (#[trigger] asientos[i]).cuadra()
}

/// The journal `asientos` after the balanced entry `a` has been posted to
/// it: in the place of the entry that had its code, or at the end where
/// none had.
pub open spec fn diario_con_asiento(asientos: Seq<AsientoV>, a: AsientoV) -> Seq<AsientoV> {
    match posicion_asiento(asientos, a.codigo) {
        Some(i) => asientos.update(i, a),
        None => asientos.push(a),
    }
}

/// Posting a balanced entry keeps a journal of balanced entries so, and one
/// without repeated codes so.
pub proof fn lema_diario_con_asiento(asientos: Seq<AsientoV>, a: AsientoV)
    requires
        todos_cuadran(asientos),
        codigos_asiento_unicos(asientos),
        a.cuadra(),
    ensures
        todos_cuadran(diario_con_asiento(asientos, a)),
        codigos_asiento_unicos(diario_con_asiento(asientos, a)),
        posicion_asiento(diario_con_asiento(asientos, a), a.codigo) is Some,
{
    lema_posicion_asiento(asientos, a.codigo);
    lema_posicion_asiento(diario_con_asiento(asientos, a), a.codigo);
    let d = diario_con_asiento(asientos, a);
    match posicion_asiento(asientos, a.codigo) {
        Some(i) => {
            assert(d[i].codigo == a.codigo);
        },
        None => {
            assert(d[asientos.len() as int].codigo == a.codigo);
        },
    }
}

/// Posting an entry under a code that the journal already holds replaces
/// the entry that had it: the journal is as long as before, the new entry
/// stands where the old one stood, and every other entry is untouched.
pub proof fn lema_reasentar_reemplaza(asientos: Seq<AsientoV>, a: AsientoV, i: int)
    requires
        codigos_asiento_unicos(asientos),
        0 <= i < asientos.len(),
        asientos[i].codigo == a.codigo,
    ensures
        diario_con_asiento(asientos, a).len() == asientos.len(),
        diario_con_asiento(asientos, a)[i] == a,
        forall|k: int|
            0 <= k < asientos.len() && k != i ==> diario_con_asiento(asientos, a)[k] == asientos[k],
{
    lema_posicion_asiento(asientos, a.codigo);
}

/// Posting two entries of the same code, one after the other, leaves the
/// journal as posting the second alone would: the same length, the second
/// entry in the place of the first.
pub proof fn lema_reasentar(asientos: Seq<AsientoV>, a: AsientoV, b: AsientoV)
    requires
        codigos_asiento_unicos(asientos),
        a.codigo == b.codigo,
    ensures
        diario_con_asiento(diario_con_asiento(asientos, a), b).len() == diario_con_asiento(
            asientos,
            a,
        ).len(),
        diario_con_asiento(diario_con_asiento(asientos, a), b) == diario_con_asiento(asientos, b),
{
    lema_posicion_asiento(asientos, a.codigo);
    let d1 = diario_con_asiento(asientos, a);
    lema_posicion_asiento(d1, b.codigo);
    match posicion_asiento(asientos, a.codigo) {
        Some(i) => {
            assert(d1[i].codigo == b.codigo);
            assert(forall|k: int| 0 <= k < i ==> d1[k] == asientos[k]);
            assert(d1.update(i, b) =~= asientos.update(i, b));
        },
        None => {
            let n = asientos.len() as int;
            assert(d1[n].codigo == b.codigo);
            assert(forall|k: int| 0 <= k < n ==> d1[k] == asientos[k]);
            assert(d1.update(n, b) =~= asientos.push(b));
        },
    }
}

/// The postings that the movements `ms` of side `lado` make to the account
/// of code `codigo`: one for each movement against that code, in order.
pub open spec fn apuntes_de_lado(ms: Seq<MovimientoV>, lado: Lado, codigo: Seq<char>) -> Seq<Apunte>
    decreases ms.len(),
{
    if ms.len() == 0 {
        Seq::empty()
    } else {
        let antes = apuntes_de_lado(ms.drop_last(), lado, codigo);
        if ms.last().codigo_cuenta == codigo {
            antes.push(Apunte { lado, importe: ms.last().importe })
        } else {
            antes
        }
    }
}

/// The postings that one entry makes to the account of code `codigo`: those
/// of its debit side, then those of its credit side.
pub open spec fn apuntes_de_asiento(a: AsientoV, codigo: Seq<char>) -> Seq<Apunte> {
    apuntes_de_lado(a.debe, Lado::Debe, codigo) + apuntes_de_lado(a.haber, Lado::Haber, codigo)
}

/// The ledger of the account of code `codigo`: the postings that the
/// entries of the journal make to it, entry after entry.
pub open spec fn apuntes_del_diario(asientos: Seq<AsientoV>, codigo: Seq<char>) -> Seq<Apunte>
    decreases asientos.len(),
{
    if asientos.len() == 0 {
        Seq::empty()
    } else {
        apuntes_del_diario(asientos.drop_last(), codigo) + apuntes_de_asiento(
            asientos.last(),
            codigo,
        )
    }
}

/// The postings of one side to an account are the movements of that side
/// against the account's code, in their order, each with its amount.
pub proof fn lema_apuntes_de_lado(ms: Seq<MovimientoV>, lado: Lado, codigo: Seq<char>)
    ensures
        apuntes_de_lado(ms, lado, codigo) == ms.filter(
            |m: MovimientoV| m.codigo_cuenta == codigo,
        ).map_values(|m: MovimientoV| Apunte { lado, importe: m.importe }),
    decreases ms.len(),
{
    reveal(Seq::filter);
    let f = |m: MovimientoV| m.codigo_cuenta == codigo;
    let g = |m: MovimientoV| Apunte { lado, importe: m.importe };
    if ms.len() > 0 {
        lema_apuntes_de_lado(ms.drop_last(), lado, codigo);
        if f(ms.last()) {
            assert(ms.filter(f) == ms.drop_last().filter(f).push(ms.last()));
            assert(ms.filter(f).map_values(g) =~= ms.drop_last().filter(f).map_values(g).push(
                g(ms.last()),
            ));
        } else {
            assert(ms.filter(f) == ms.drop_last().filter(f));
        }
    } else {
        assert(ms.filter(f).map_values(g) =~= Seq::<Apunte>::empty());
    }
}

/// The ledger that a journal gives to an account is the ledger that its
/// first entries give, followed by what the later entries post.
pub proof fn lema_apuntes_del_diario_concatena(
    antes: Seq<AsientoV>,
    despues: Seq<AsientoV>,
    codigo: Seq<char>,
)
    ensures
        apuntes_del_diario(antes + despues, codigo) == apuntes_del_diario(antes, codigo)
            + apuntes_del_diario(despues, codigo),
    decreases despues.len(),
{
    if despues.len() == 0 {
        assert(antes + despues =~= antes);
        assert(apuntes_del_diario(antes, codigo) + Seq::<Apunte>::empty() =~= apuntes_del_diario(
            antes,
            codigo,
        ));
    } else {
        lema_apuntes_del_diario_concatena(antes, despues.drop_last(), codigo);
        assert((antes + despues).drop_last() =~= antes + despues.drop_last());
        assert((antes + despues).last() == despues.last());
        assert(apuntes_del_diario(antes + despues, codigo) =~= apuntes_del_diario(antes, codigo)
            + apuntes_del_diario(despues, codigo));
    }
}

/// The account `c` after the postings `nuevos` have been made to it.
pub open spec fn cuenta_con_apuntes(c: CuentaV, nuevos: Seq<Apunte>) -> CuentaV {
    CuentaV { apuntes: c.apuntes + nuevos, ..c }
}

/// The accounts `cs` after the entry `a` has been posted to them: each has
/// received, after what it held, the postings that `a` makes to its code.
pub open spec fn cuentas_con_asiento(cs: Seq<CuentaV>, a: AsientoV) -> Seq<CuentaV> {
    Seq::new(cs.len(), |i: int| cuenta_con_apuntes(cs[i], apuntes_de_asiento(a, cs[i].codigo)))
}

/// Posting the lines of one side, line by line, gives each account the
/// postings that the movements of those lines make to its code.
pub proof fn lema_apuntes_tras_partidas(cs: Seq<CuentaV>, lado: Lado, ps: Seq<(Seq<char>, i64)>)
    requires
        codigos_unicos(cs),
    ensures
        cuentas_tras_apuntes(cs, lado, ps) == Seq::new(
            cs.len(),
            |i: int|
                cuenta_con_apuntes(
                    cs[i],
                    apuntes_de_lado(movimientos_resueltos(cs, ps), lado, cs[i].codigo),
                ),
        ),
    decreases ps.len(),
{
    let hecho = cuentas_tras_apuntes(cs, lado, ps);
    let dicho = Seq::new(
        cs.len(),
        |i: int|
            cuenta_con_apuntes(
                cs[i],
                apuntes_de_lado(movimientos_resueltos(cs, ps), lado, cs[i].codigo),
            ),
    );
    lema_apuntes_mismas_cuentas(cs, lado, ps);
    if ps.len() == 0 {
        assert forall|i: int| 0 <= i < cs.len() implies hecho[i] == dicho[i] by {
            assert(cs[i].apuntes + Seq::<Apunte>::empty() =~= cs[i].apuntes);
        }
    } else {
        lema_apuntes_tras_partidas(cs, lado, ps.drop_last());
        lema_apuntes_mismas_cuentas(cs, lado, ps.drop_last());
        lema_posicion_cuenta(cs, ps.last().0);
        let antes = cuentas_tras_apuntes(cs, lado, ps.drop_last());
        let ms_antes = movimientos_resueltos(cs, ps.drop_last());
        let ms = movimientos_resueltos(cs, ps);
        match posicion_cuenta(cs, ps.last().0) {
            Some(j) => {
                let apunte = Apunte { lado, importe: ps.last().1 };
                assert(ms.drop_last() =~= ms_antes);
                assert(ms.last().codigo_cuenta == cs[j].codigo);
                assert forall|i: int| 0 <= i < cs.len() implies hecho[i] == dicho[i] by {
                    let previos = apuntes_de_lado(ms_antes, lado, cs[i].codigo);
                    if i == j {
                        assert((cs[i].apuntes + previos).push(apunte) =~= cs[i].apuntes
                            + previos.push(apunte));
                    } else {
                        assert(cs[i].codigo != cs[j].codigo);
                    }
                }
            },
            None => {
                assert forall|i: int| 0 <= i < cs.len() implies hecho[i] == dicho[i] by {}
            },
        }
    }
    assert(hecho =~= dicho);
}

/// Posting both sides of an entry, line by line, gives each account the
/// postings that the entry makes to its code.
pub proof fn lema_cuentas_con_asiento(
    cs: Seq<CuentaV>,
    concepto: Seq<char>,
    fecha: Fecha,
    codigo: Seq<char>,
    debe: Seq<(Seq<char>, i64)>,
    haber: Seq<(Seq<char>, i64)>,
)
    requires
        codigos_unicos(cs),
    ensures
        cuentas_tras_apuntes(cuentas_tras_apuntes(cs, Lado::Debe, debe), Lado::Haber, haber)
            == cuentas_con_asiento(
            cs,
            asiento_de_partidas(cs, concepto, fecha, codigo, debe, haber),
        ),
{
    let a = asiento_de_partidas(cs, concepto, fecha, codigo, debe, haber);
    let primero = cuentas_tras_apuntes(cs, Lado::Debe, debe);
    let segundo = cuentas_tras_apuntes(primero, Lado::Haber, haber);
    lema_apuntes_tras_partidas(cs, Lado::Debe, debe);
    lema_apuntes_mismas_cuentas(cs, Lado::Debe, debe);
    assert(codigos_unicos(primero)) by {
        assert forall|i: int, j: int| 0 <= i < j < primero.len() implies primero[i].codigo
            != primero[j].codigo by {
            assert(primero[i].codigo == cs[i].codigo);
            assert(primero[j].codigo == cs[j].codigo);
        }
    }
    lema_apuntes_tras_partidas(primero, Lado::Haber, haber);
    lema_resueltos_mismas_cuentas(primero, cs, haber);
    let dicho = cuentas_con_asiento(cs, a);
    assert forall|i: int| 0 <= i < cs.len() implies segundo[i] == dicho[i] by {
        let d = apuntes_de_lado(a.debe, Lado::Debe, cs[i].codigo);
        let h = apuntes_de_lado(a.haber, Lado::Haber, cs[i].codigo);
        assert(primero[i].codigo == cs[i].codigo);
        assert((cs[i].apuntes + d) + h =~= cs[i].apuntes + (d + h));
    }
    assert(segundo =~= dicho);
}

/// Every account of `cs` holds the ledger that the journal `asientos`
/// gives to its code.
pub open spec fn mayor_al_dia(cs: Seq<CuentaV>, asientos: Seq<AsientoV>) -> bool {
    forall|i: int|
        0 <= i < cs.len() ==> (#[trigger] cs[i]).apuntes == apuntes_del_diario(
            asientos,
            cs[i].codigo,
        )
}

/// Accounts that hold the ledger of a journal still do so when an entry is
/// posted to them and put at the end of the journal. So after any number of
/// entries posted to accounts that started with none, each account holds
/// the postings of all those entries to its code, and no others.
pub proof fn lema_mayor_al_dia(cs: Seq<CuentaV>, asientos: Seq<AsientoV>, a: AsientoV)
    requires
        mayor_al_dia(cs, asientos),
    ensures
        mayor_al_dia(cuentas_con_asiento(cs, a), asientos.push(a)),
{
    assert(asientos.push(a).drop_last() =~= asientos);
    assert forall|i: int| 0 <= i < cs.len() implies (#[trigger] cuentas_con_asiento(
        cs,
        a,
    )[i]).apuntes == apuntes_del_diario(asientos.push(a), cuentas_con_asiento(cs, a)[i].codigo) by {
        assert(cs[i].apuntes == apuntes_del_diario(asientos, cs[i].codigo));
    }
}

/// The sum of the amounts of the movements `ms` that go against the code
/// `codigo`.
pub open spec fn suma_de_cuenta(ms: Seq<MovimientoV>, codigo: Seq<char>) -> int
    decreases ms.len(),
{
    if ms.len() == 0 {
        0
    } else {
        suma_de_cuenta(ms.drop_last(), codigo) + if ms.last().codigo_cuenta == codigo {
            ms.last().importe as int
        } else {
            0
        }
    }
}

/// The movements of side `lado` of the entry `a`.
pub open spec fn movimientos_de_lado(a: AsientoV, lado: Lado) -> Seq<MovimientoV> {
    match lado {
        Lado::Debe => a.debe,
        Lado::Haber => a.haber,
    }
}

/// What the entries of the journal `asientos` post on side `lado` to the
/// account of code `codigo`, added up: the sum of the amounts of those of
/// their movements of that side that go against the code.
pub open spec fn total_del_diario(asientos: Seq<AsientoV>, lado: Lado, codigo: Seq<char>) -> int
    decreases asientos.len(),
{
    if asientos.len() == 0 {
        0
    } else {
        total_del_diario(asientos.drop_last(), lado, codigo) + suma_de_cuenta(
            movimientos_de_lado(asientos.last(), lado),
            codigo,
        )
    }
}

/// The postings that the movements of one side make to an account add up,
/// on that side, to the amounts of the movements against its code, and to
/// nothing on the other side.
pub proof fn lema_suma_apuntes_de_lado(
    ms: Seq<MovimientoV>,
    lado: Lado,
    codigo: Seq<char>,
    de: Lado,
)
    ensures
        suma_lado(apuntes_de_lado(ms, lado, codigo), de) == if de == lado {
            suma_de_cuenta(ms, codigo)
        } else {
            0
        },
    decreases ms.len(),
{
    if ms.len() > 0 {
        lema_suma_apuntes_de_lado(ms.drop_last(), lado, codigo, de);
        if ms.last().codigo_cuenta == codigo {
            lema_suma_push(
                apuntes_de_lado(ms.drop_last(), lado, codigo),
                Apunte { lado, importe: ms.last().importe },
                de,
            );
        }
    }
}

/// The ledger that a journal gives to an account adds up, on each side, to
/// the amounts of the movements of that side that go against its code: none
/// against another code counts, and none against this one is missed.
pub proof fn lema_totales_del_diario(asientos: Seq<AsientoV>, lado: Lado, codigo: Seq<char>)
    ensures
        suma_lado(apuntes_del_diario(asientos, codigo), lado) == total_del_diario(
            asientos,
            lado,
            codigo,
        ),
    decreases asientos.len(),
{
    if asientos.len() > 0 {
        let a = asientos.last();
        lema_totales_del_diario(asientos.drop_last(), lado, codigo);
        let d = apuntes_de_lado(a.debe, Lado::Debe, codigo);
        let h = apuntes_de_lado(a.haber, Lado::Haber, codigo);
        lema_suma_concatena(apuntes_del_diario(asientos.drop_last(), codigo), d + h, lado);
        lema_suma_concatena(d, h, lado);
        lema_suma_apuntes_de_lado(a.debe, Lado::Debe, codigo, lado);
        lema_suma_apuntes_de_lado(a.haber, Lado::Haber, codigo, lado);
    }
}

/// The account `c` with the ledger that the journal `asientos` gives it.
pub open spec fn cuenta_mayorizada(c: CuentaV, asientos: Seq<AsientoV>) -> CuentaV {
    CuentaV { apuntes: apuntes_del_diario(asientos, c.codigo), ..c }
}

/// The accounts `cs`, each with the ledger that the journal gives it.
pub open spec fn cuentas_mayorizadas(cs: Seq<CuentaV>, asientos: Seq<AsientoV>) -> Seq<CuentaV> {
    Seq::new(cs.len(), |i: int| cuenta_mayorizada(cs[i], asientos))
}

/// A journal as a report shows it: one box for each entry.
pub open spec fn diario_en_texto(asientos: Seq<AsientoV>) -> Seq<char>
    decreases asientos.len(),
{
    if asientos.len() == 0 {
        Seq::empty()
    } else {
        diario_en_texto(asientos.drop_last()) + asiento_en_texto(asientos.last())
    }
}

/// Posts to `cuenta`, on side `lado`, the amount of each movement of `ms`
/// that goes against the code `codigo`, in order.
pub fn asentar_lado(cuenta: &mut Cuenta, ms: &Vec<Movimiento>, lado: Lado, codigo: &str)
    requires
        old(cuenta).wf(),
    ensures
        final(cuenta).wf(),
        final(cuenta)@ == (CuentaV {
            apuntes: old(cuenta)@.apuntes + apuntes_de_lado(vistas(ms@), lado, codigo@),
            ..old(cuenta)@
        }),
{
    let mut k: usize = 0;
    let ghost todos = vistas(ms@);
    assert(cuenta@.apuntes =~= old(cuenta)@.apuntes + apuntes_de_lado(todos.take(0), lado, codigo@));
    while k < ms.len()
        invariant
            k <= ms.len(),
            todos == vistas(ms@),
            cuenta.wf(),
            cuenta@ == (CuentaV {
                apuntes: old(cuenta)@.apuntes + apuntes_de_lado(
                    todos.take(k as int),
                    lado,
                    codigo@,
                ),
                ..old(cuenta)@
            }),
        decreases ms.len() - k,
    {
        proof {
            assert(todos.take(k + 1).drop_last() =~= todos.take(k as int));
            assert(todos.take(k + 1).last() == ms@[k as int]@);
        }
        if mismo_texto(ms[k].codigo_cuenta(), codigo) {
            let importe = ms[k].importe();
            match lado {
                Lado::Debe => cuenta.saldo_deudor(importe),
                Lado::Haber => cuenta.saldo_acreedor(importe),
            }
        }
        assert(cuenta@.apuntes =~= old(cuenta)@.apuntes + apuntes_de_lado(
            todos.take(k + 1),
            lado,
            codigo@,
        ));
        k = k + 1;
    }
    assert(todos.take(k as int) =~= todos);
}

/// The position of the first entry of `asientos` with code `codigo`, if
/// there is one.
pub fn buscar_asiento(asientos: &Vec<Asiento>, codigo: &str) -> (r: Option<usize>)
    ensures
        match r {
            Some(i) => posicion_asiento(vistas_asientos(asientos@), codigo@) == Some(i as int) && i
                < asientos@.len(),
            None => posicion_asiento(vistas_asientos(asientos@), codigo@) is None,
        },
{
    let ghost todos = vistas_asientos(asientos@);
    let mut i: usize = 0;
    while i < asientos.len()
        invariant
            i <= asientos.len(),
            todos == vistas_asientos(asientos@),
            forall|k: int| 0 <= k < i ==> (#[trigger] todos[k]).codigo != codigo@,
        decreases asientos.len() - i,
    {
        assert(todos[i as int] == asientos@[i as int]@);
        if mismo_texto(asientos[i].codigo(), codigo) {
            proof {
                lema_posicion_asiento(todos, codigo@);
            }
            return Some(i);
        }
        i = i + 1;
    }
    proof {
        lema_posicion_asiento(todos, codigo@);
    }
    None
}

/// Why the journal refuses an entry.
#[derive(Debug, Clone, Copy, PartialEq, Eq, Structural)]
pub enum LibroDiarioError {
    /// The debit side and the credit side do not add up to the same amount.
    AsientoDesequilibrado,
}

impl LibroDiarioError {
    /// The message that describes the error.
    pub fn to_string(&self) -> (r: String)
        ensures
            r@ == "el debe y el haber del asiento que intentas insertar no coinciden"@,
    {
        String::from_str("el debe y el haber del asiento que intentas insertar no coinciden")
    }
}

/// A journal: entries in the order in which they were posted, all of which
/// balance.
#[derive(Debug, PartialEq)]
pub struct LibroDiario {
    asientos: Vec<Asiento>,
}

impl View for LibroDiario {
    type V = Seq<AsientoV>;

    closed spec fn view(&self) -> Seq<AsientoV> {
        vistas_asientos(self.asientos@)
    }
}

impl LibroDiario {
    /// Every entry is well formed and balances, and no two share a code.
    pub closed spec fn wf(&self) -> bool {
        &&& forall|i: int| 0 <= i < self.asientos@.len() ==> (#[trigger] self.asientos@[i]).wf()
        &&& todos_cuadran(self@)
        &&& codigos_asiento_unicos(self@)
    }

    /// Every entry of a well-formed journal balances, and no two of them
    /// share a code.
    pub proof fn lema_todos_cuadran(&self)
        requires
            self.wf(),
        ensures
            todos_cuadran(self@),
            codigos_asiento_unicos(self@),
    {
    }

    /// An empty journal.
    pub fn new() -> (l: LibroDiario)
        ensures
            l.wf(),
            l@ == Seq::<AsientoV>::empty(),
    {
        let l = LibroDiario { asientos: Vec::new() };
        assert(l@ =~= Seq::<AsientoV>::empty());
        l
    }

    /// The entries, oldest first.
    pub fn asientos(&self) -> (r: &Vec<Asiento>)
        ensures
            vistas_asientos(r@) == self@,
    {
        &self.asientos
    }

    /// Makes an entry dated `fecha` from the lines `debe` and `haber` and
    /// posts it under the code `codigo_asiento`. Each line whose code names
    /// an account of `cuadro` gives a movement; the others are passed over.
    /// An entry that does not balance is refused: the journal and the chart
    /// stay as they were and the error says so. One that balances takes the
    /// place of the entry that had its code, or goes to the end of the
    /// journal where none had, and each account receives the postings that
    /// the entry makes to its code, those of the debit side first.
    pub fn insertar_asiento_con_codigo(
        &mut self,
        concepto: &str,
        fecha: Fecha,
        debe: Vec<(&str, i64)>,
        haber: Vec<(&str, i64)>,
        codigo_asiento: &str,
        cuadro: &mut Cuadro,
    ) -> (r: Result<(), LibroDiarioError>)
        requires
            old(self).wf(),
            old(cuadro).wf(),
        ensures
            final(self).wf(),
            final(cuadro).wf(),
            final(cuadro)@.libro_diario == old(cuadro)@.libro_diario,
            ({
                let a = asiento_de_partidas(
                    old(cuadro)@.cuentas,
                    concepto@,
                    fecha,
                    codigo_asiento@,
                    vistas_partidas(debe@),
                    vistas_partidas(haber@),
                );
                if a.cuadra() {
                    &&& r is Ok
                    &&& final(self)@ == diario_con_asiento(old(self)@, a)
                    &&& final(cuadro)@.cuentas == cuentas_con_asiento(old(cuadro)@.cuentas, a)
                } else {
                    &&& r == Err::<(), LibroDiarioError>(LibroDiarioError::AsientoDesequilibrado)
                    &&& final(self)@ == old(self)@
                    &&& final(cuadro)@ == old(cuadro)@
                }
            }),
    {
        let vec_debe = cuadro.resolver_partidas(&debe);
        let vec_haber = cuadro.resolver_partidas(&haber);
        let asiento = Asiento::con_codigo(concepto, fecha, vec_debe, vec_haber, codigo_asiento);
        if !asiento.validar_saldos() {
            return Err(LibroDiarioError::AsientoDesequilibrado);
        }
        proof {
            cuadro.lema_invariantes();
            lema_cuentas_con_asiento(
                cuadro@.cuentas,
                concepto@,
                fecha,
                codigo_asiento@,
                vistas_partidas(debe@),
                vistas_partidas(haber@),
            );
        }
        let _ = cuadro.asentar_partidas(Lado::Debe, &debe);
        let _ = cuadro.asentar_partidas(Lado::Haber, &haber);
        let ghost antes = self@;
        proof {
            lema_posicion_asiento(antes, codigo_asiento@);
        }
        match buscar_asiento(&self.asientos, codigo_asiento) {
            Some(i) => {
                self.asientos[i] = asiento;
                assert(self@ =~= antes.update(i as int, asiento@));
            },
            None => {
                self.asientos.push(asiento);
                assert(self@ =~= antes.push(asiento@));
            },
        }
        Ok(())
    }

    /// Makes an entry dated `fecha` and posts it as
    /// `insertar_asiento_con_codigo` does, under a code of its own making:
    /// the date in digits, then the number of entries that the journal
    /// holds.
    pub fn insertar_asiento_con_fecha(
        &mut self,
        concepto: &str,
        fecha: Fecha,
        debe: Vec<(&str, i64)>,
        haber: Vec<(&str, i64)>,
        cuadro: &mut Cuadro,
    ) -> (r: Result<(), LibroDiarioError>)
        requires
            old(self).wf(),
            old(cuadro).wf(),
        ensures
            final(self).wf(),
            final(cuadro).wf(),
            final(cuadro)@.libro_diario == old(cuadro)@.libro_diario,
            ({
                let a = asiento_de_partidas(
                    old(cuadro)@.cuentas,
                    concepto@,
                    fecha,
                    codigo_de_fecha(fecha, old(self)@.len()),
                    vistas_partidas(debe@),
                    vistas_partidas(haber@),
                );
                if a.cuadra() {
                    &&& r is Ok
                    &&& final(self)@ == diario_con_asiento(old(self)@, a)
                    &&& final(cuadro)@.cuentas == cuentas_con_asiento(old(cuadro)@.cuentas, a)
                } else {
                    &&& r == Err::<(), LibroDiarioError>(LibroDiarioError::AsientoDesequilibrado)
                    &&& final(self)@ == old(self)@
                    &&& final(cuadro)@ == old(cuadro)@
                }
            }),
    {
        assert(self@.len() == self.asientos@.len());
        let codigo = generar_codigo_en(fecha, self.asientos.len());
        self.insertar_asiento_con_codigo(concepto, fecha, debe, haber, codigo.as_str(), cuadro)
    }

    /// Makes an entry and posts it as `insertar_asiento_con_fecha` does.
    /// Its date is `fecha` where one is given and today's date on the local
    /// clock where none is.
    pub fn insertar_asiento(
        &mut self,
        concepto: &str,
        fecha: Option<Fecha>,
        debe: Vec<(&str, i64)>,
        haber: Vec<(&str, i64)>,
        cuadro: &mut Cuadro,
    ) -> (r: Result<(), LibroDiarioError>)
        requires
            old(self).wf(),
            old(cuadro).wf(),
        ensures
            final(self).wf(),
            final(cuadro).wf(),
            final(cuadro)@.libro_diario == old(cuadro)@.libro_diario,
            exists|dia: Fecha|
                {
                    let a = #[trigger] asiento_de_partidas(
                        old(cuadro)@.cuentas,
                        concepto@,
                        dia,
                        codigo_de_fecha(dia, old(self)@.len()),
                        vistas_partidas(debe@),
                        vistas_partidas(haber@),
                    );
                    &&& fecha matches Some(f) ==> dia == f
                    &&& fecha is None ==> fecha_valida(dia)
                    &&& if a.cuadra() {
                        &&& r is Ok
                        &&& final(self)@ == diario_con_asiento(old(self)@, a)
                        &&& final(cuadro)@.cuentas == cuentas_con_asiento(
                            old(cuadro)@.cuentas,
                            a,
                        )
                    } else {
                        &&& r == Err::<(), LibroDiarioError>(
                            LibroDiarioError::AsientoDesequilibrado,
                        )
                        &&& final(self)@ == old(self)@
                        &&& final(cuadro)@ == old(cuadro)@
                    }
                },
    {
        let dia = match fecha {
            Some(f) => f,
            None => hoy_local(),
        };
        let ghost a = asiento_de_partidas(
            cuadro@.cuentas,
            concepto@,
            dia,
            codigo_de_fecha(dia, self@.len()),
            vistas_partidas(debe@),
            vistas_partidas(haber@),
        );
        self.insertar_asiento_con_fecha(concepto, dia, debe, haber, cuadro)
    }
}

} // verus!
