//! The chart of accounts of the simpler ledger.

use vstd::prelude::*;
use vstd::string::*;
use super::asiento::{Asiento, AsientoV};
use super::cuenta::{Cuenta, CuentaV, Masa};
use super::movimiento::{Movimiento, MovimientoV};
use crate::cuadro_contable::cuenta::{Apunte, Lado};
use crate::fecha::{fecha_valida, hoy_local, Fecha};
use crate::texto::mismo_texto;

verus! {

/// The contents of a list of accounts.
pub open spec fn vistas_cuentas(cs: Seq<Cuenta>) -> Seq<CuentaV> {
    cs.map_values(|c: Cuenta| c@)
}

/// The contents of a list of entries.
pub open spec fn vistas_asientos(asientos: Seq<Asiento>) -> Seq<AsientoV> {
    asientos.map_values(|a: Asiento| a@)
}

/// The position of the first account of `cs` whose name is `nombre`.
pub open spec fn posicion_nombre(cs: Seq<CuentaV>, nombre: Seq<char>) -> Option<int>
    decreases cs.len(),
{
    if cs.len() == 0 {
        None
    } else {
        match posicion_nombre(cs.drop_last(), nombre) {
            Some(i) => Some(i),
            None => if cs.last().nombre == nombre {
                Some(cs.len() - 1)
            } else {
                None
            },
        }
    }
}

/// `posicion_nombre` finds an account exactly when one has the name, and
/// then the first such.
pub proof fn lema_posicion_nombre(cs: Seq<CuentaV>, nombre: Seq<char>)
    ensures
        match posicion_nombre(cs, nombre) {
            Some(i) => {
                &&& 0 <= i < cs.len()
                &&& cs[i].nombre == nombre
                &&& forall|k: int| 0 <= k < i ==> cs[k].nombre != nombre
            },
            None => forall|k: int| 0 <= k < cs.len() ==> cs[k].nombre != nombre,
        },
    decreases cs.len(),
{
    if cs.len() > 0 {
        lema_posicion_nombre(cs.drop_last(), nombre);
        assert(forall|k: int| 0 <= k < cs.len() - 1 ==> cs.drop_last()[k] == cs[k]);
    }
}

/// Two lists hold accounts of the same names, in the same order.
pub open spec fn mismos_nombres(a: Seq<CuentaV>, b: Seq<CuentaV>) -> bool {
    &&& a.len() == b.len()
    &&& forall|i: int| 0 <= i < a.len() ==> (#[trigger] a[i]).nombre == b[i].nombre
}

/// Where an account stands depends on the names alone.
pub proof fn lema_posicion_mismos_nombres(a: Seq<CuentaV>, b: Seq<CuentaV>, nombre: Seq<char>)
    requires
        mismos_nombres(a, b),
    ensures
        posicion_nombre(a, nombre) == posicion_nombre(b, nombre),
    decreases a.len(),
{
    if a.len() > 0 {
        assert(mismos_nombres(a.drop_last(), b.drop_last())) by {
            assert forall|i: int| 0 <= i < a.drop_last().len() implies (
            #[trigger] a.drop_last()[i]).nombre == b.drop_last()[i].nombre by {
                assert(a[i].nombre == b[i].nombre);
            }
        }
        lema_posicion_mismos_nombres(a.drop_last(), b.drop_last(), nombre);
        assert(a[a.len() - 1].nombre == b[a.len() - 1].nombre);
    }
}

/// The accounts `cs` after `importe` has been added to the balance of the
/// first account of name `deudora` and then taken from that of the first
/// account of name `acreedora`. A name that no account has changes nothing.
pub open spec fn cuentas_tras_movimiento(
    cs: Seq<CuentaV>,
    deudora: Seq<char>,
    acreedora: Seq<char>,
    importe: i64,
) -> Seq<CuentaV> {
    let cargadas = match posicion_nombre(cs, deudora) {
        Some(i) => cs.update(i, cs[i].con_apunte(Apunte { lado: Lado::Debe, importe })),
        None => cs,
    };
    match posicion_nombre(cs, acreedora) {
        Some(j) => cargadas.update(
            j,
            cargadas[j].con_apunte(Apunte { lado: Lado::Haber, importe }),
        ),
        None => cargadas,
    }
}

/// The movements of an entry as they are handed in: for each, the name of
/// the account debited, that of the account credited, and an amount in
/// cents.
pub open spec fn vistas_pedidos(ms: Seq<(&str, &str, i64)>) -> Seq<(Seq<char>, Seq<char>, i64)> {
    ms.map_values(|m: (&str, &str, i64)| (m.0@, m.1@, m.2))
}

/// The accounts `cs` after each of the movements `ms` has been made, in
/// order.
pub open spec fn cuentas_tras_movimientos(cs: Seq<CuentaV>, ms: Seq<(Seq<char>, Seq<char>, i64)>) -> Seq<
    CuentaV,
>
    decreases ms.len(),
{
    if ms.len() == 0 {
        cs
    } else {
        cuentas_tras_movimiento(
            cuentas_tras_movimientos(cs, ms.drop_last()),
            ms.last().0,
            ms.last().1,
            ms.last().2,
        )
    }
}

/// The movements of the entry that `ms` asks for.
pub open spec fn movimientos_pedidos(ms: Seq<(Seq<char>, Seq<char>, i64)>) -> Seq<MovimientoV> {
    ms.map_values(
        |m: (Seq<char>, Seq<char>, i64)|
            MovimientoV { importe: m.2, cuenta_deudora: m.0, cuenta_acreedora: m.1 },
    )
}

/// Every movement of `ms` names two accounts of `cs`.
pub open spec fn cuentas_presentes(cs: Seq<CuentaV>, ms: Seq<(Seq<char>, Seq<char>, i64)>) -> bool {
    forall|k: int|
        0 <= k < ms.len() ==> posicion_nombre(cs, (#[trigger] ms[k]).0) is Some && posicion_nombre(
            cs,
            ms[k].1,
        ) is Some
}

/// Making movements changes no account's name.
pub proof fn lema_movimientos_mismos_nombres(cs: Seq<CuentaV>, ms: Seq<(Seq<char>, Seq<char>, i64)>)
    ensures
        mismos_nombres(cuentas_tras_movimientos(cs, ms), cs),
    decreases ms.len(),
{
    if ms.len() > 0 {
        lema_movimientos_mismos_nombres(cs, ms.drop_last());
        let antes = cuentas_tras_movimientos(cs, ms.drop_last());
        lema_posicion_nombre(antes, ms.last().0);
        lema_posicion_nombre(antes, ms.last().1);
    }
}

/// The mathematical content of the chart: its accounts and its entries, in
/// the order in which they came.
pub struct CuadroV {
    pub cuentas: Seq<CuentaV>,
    pub asientos: Seq<AsientoV>,
}

/// The chart of accounts: it holds the accounts, makes sure that the
/// accounts of a movement exist, and changes their balances.
#[derive(Debug, PartialEq)]
pub struct Cuadro {
    cuentas: Vec<Cuenta>,
    asientos: Vec<Asiento>,
}

impl View for Cuadro {
    type V = CuadroV;

    closed spec fn view(&self) -> CuadroV {
        CuadroV {
            cuentas: vistas_cuentas(self.cuentas@),
            asientos: vistas_asientos(self.asientos@),
        }
    }
}

impl Cuadro {
    /// Every account is well formed.
    pub closed spec fn wf(&self) -> bool {
        forall|i: int| 0 <= i < self.cuentas@.len() ==> (#[trigger] self.cuentas@[i]).wf()
    }

    /// An empty chart.
    pub fn create() -> (c: Cuadro)
        ensures
            c.wf(),
            c@ == (CuadroV { cuentas: Seq::empty(), asientos: Seq::empty() }),
    {
        let c = Cuadro { cuentas: Vec::new(), asientos: Vec::new() };
        assert(c@.cuentas =~= Seq::empty());
        assert(c@.asientos =~= Seq::empty());
        c
    }

    /// The accounts, in the order in which they were added.
    pub fn cuentas(&self) -> (r: &Vec<Cuenta>)
        ensures
            vistas_cuentas(r@) == self@.cuentas,
    {
        &self.cuentas
    }

    /// The entries, in the order in which they were made.
    pub fn asientos(&self) -> (r: &Vec<Asiento>)
        ensures
            vistas_asientos(r@) == self@.asientos,
    {
        &self.asientos
    }

    /// Adds an account of the given name and category, with a balance of
    /// zero.
    pub fn insertar_cuenta(&mut self, nombre_cuenta: &str, masa_cuenta: Masa)
        requires
            old(self).wf(),
        ensures
            final(self).wf(),
            final(self)@ == (CuadroV {
                cuentas: old(self)@.cuentas.push(
                    CuentaV { nombre: nombre_cuenta@, masa: masa_cuenta, apuntes: Seq::empty() },
                ),
                ..old(self)@
            }),
    {
        let cuenta = Cuenta::new(nombre_cuenta, masa_cuenta);
        self.cuentas.push(cuenta);
        assert(self@.cuentas =~= old(self)@.cuentas.push(cuenta@));
        assert(self@.asientos =~= old(self)@.asientos);
    }

    /// The position of the first account of the name `nombre`, if there is
    /// one.
    fn indice_cuenta(&self, nombre: &str) -> (r: Option<usize>)
        ensures
            match r {
                Some(i) => posicion_nombre(self@.cuentas, nombre@) == Some(i as int) && i
                    < self.cuentas@.len(),
                None => posicion_nombre(self@.cuentas, nombre@) is None,
            },
    {
        let mut i: usize = 0;
        while i < self.cuentas.len()
            invariant
                i <= self.cuentas.len(),
                forall|k: int| 0 <= k < i ==> (#[trigger] self@.cuentas[k]).nombre != nombre@,
            decreases self.cuentas.len() - i,
        {
            let n = self.cuentas[i].nombre();
            assert(self@.cuentas[i as int] == self.cuentas@[i as int]@);
            if mismo_texto(n.as_str(), nombre) {
                proof {
                    lema_posicion_nombre(self@.cuentas, nombre@);
                }
                return Some(i);
            }
            i = i + 1;
        }
        proof {
            lema_posicion_nombre(self@.cuentas, nombre@);
        }
        None
    }

    /// Makes a movement of `importe` cents: adds it to the balance of the
    /// first account of name `nombre_cuenta_deudora`, takes it from that of
    /// the first account of name `nombre_cuenta_acreedora`, and returns the
    /// movement. Both accounts must exist.
    pub fn crear_movimiento(
        &mut self,
        nombre_cuenta_deudora: &str,
        nombre_cuenta_acreedora: &str,
        importe: i64,
    ) -> (m: Movimiento)
        requires
            old(self).wf(),
            posicion_nombre(old(self)@.cuentas, nombre_cuenta_deudora@) is Some,
            posicion_nombre(old(self)@.cuentas, nombre_cuenta_acreedora@) is Some,
        ensures
            final(self).wf(),
            final(self)@.asientos == old(self)@.asientos,
            final(self)@.cuentas == cuentas_tras_movimiento(
                old(self)@.cuentas,
                nombre_cuenta_deudora@,
                nombre_cuenta_acreedora@,
                importe,
            ),
            m@ == (MovimientoV {
                importe,
                cuenta_deudora: nombre_cuenta_deudora@,
                cuenta_acreedora: nombre_cuenta_acreedora@,
            }),
    {
        let ghost cs = self@.cuentas;
        proof {
            lema_posicion_nombre(cs, nombre_cuenta_deudora@);
            lema_posicion_nombre(cs, nombre_cuenta_acreedora@);
        }
        let cuenta_deudora: String;
        let cuenta_acreedora: String;
        match self.indice_cuenta(nombre_cuenta_deudora) {
            Some(i) => {
                assert(self@.cuentas[i as int] == self.cuentas@[i as int]@);
                self.cuentas[i].incrementar_saldo(&importe);
                cuenta_deudora = self.cuentas[i].nombre();
                assert(self@.cuentas =~= cs.update(
                    i as int,
                    cs[i as int].con_apunte(Apunte { lado: Lado::Debe, importe }),
                ));
            },
            None => {
                cuenta_deudora = unreached();
            },
        }
        let ghost cargadas = self@.cuentas;
        proof {
            assert(mismos_nombres(cargadas, cs));
            lema_posicion_mismos_nombres(cargadas, cs, nombre_cuenta_acreedora@);
        }
        match self.indice_cuenta(nombre_cuenta_acreedora) {
            Some(j) => {
                assert(self@.cuentas[j as int] == self.cuentas@[j as int]@);
                self.cuentas[j].reducir_saldo(&importe);
                cuenta_acreedora = self.cuentas[j].nombre();
                assert(self@.cuentas =~= cargadas.update(
                    j as int,
                    cargadas[j as int].con_apunte(Apunte { lado: Lado::Haber, importe }),
                ));
            },
            None => {
                cuenta_acreedora = unreached();
            },
        }
        assert(self@.asientos =~= old(self)@.asientos);
        Movimiento::new(importe, cuenta_deudora, cuenta_acreedora)
    }

    /// Makes an entry dated `fecha` out of the movements asked for, each
    /// between two accounts that the chart must hold, and puts it at the
    /// end of the entries.
    pub fn crear_asiento_con_fecha(
        &mut self,
        concepto: &str,
        fecha: Fecha,
        movimientos: Vec<(&str, &str, i64)>,
    )
        requires
            old(self).wf(),
            cuentas_presentes(old(self)@.cuentas, vistas_pedidos(movimientos@)),
        ensures
            final(self).wf(),
            final(self)@.cuentas == cuentas_tras_movimientos(
                old(self)@.cuentas,
                vistas_pedidos(movimientos@),
            ),
            final(self)@.asientos == old(self)@.asientos.push(
                AsientoV {
                    concepto: concepto@,
                    fecha,
                    movimientos: movimientos_pedidos(vistas_pedidos(movimientos@)),
                },
            ),
    {
        let mut asiento = Asiento::con_fecha(concepto, fecha);
        let ghost cs = self@.cuentas;
        let ghost pedidos = vistas_pedidos(movimientos@);
        let mut k: usize = 0;
        proof {
            assert(pedidos.take(0) =~= Seq::empty());
            assert(movimientos_pedidos(pedidos.take(0)) =~= Seq::empty());
        }
        while k < movimientos.len()
            invariant
                k <= movimientos.len(),
                pedidos == vistas_pedidos(movimientos@),
                cs == old(self)@.cuentas,
                cuentas_presentes(cs, pedidos),
                self.wf(),
                self@.asientos == old(self)@.asientos,
                self@.cuentas == cuentas_tras_movimientos(cs, pedidos.take(k as int)),
                asiento@ == (AsientoV {
                    concepto: concepto@,
                    fecha,
                    movimientos: movimientos_pedidos(pedidos.take(k as int)),
                }),
            decreases movimientos.len() - k,
        {
            let deudora: &str = movimientos[k].0;
            let acreedora: &str = movimientos[k].1;
            let importe: i64 = movimientos[k].2;
            proof {
                assert(pedidos.take(k + 1).drop_last() =~= pedidos.take(k as int));
                assert(pedidos.take(k + 1).last() == (deudora@, acreedora@, importe));
                assert(pedidos[k as int] == (deudora@, acreedora@, importe));
                lema_movimientos_mismos_nombres(cs, pedidos.take(k as int));
                lema_posicion_mismos_nombres(self@.cuentas, cs, deudora@);
                lema_posicion_mismos_nombres(self@.cuentas, cs, acreedora@);
            }
            let m = self.crear_movimiento(deudora, acreedora, importe);
            asiento.insertar_movimiento(m);
            assert(asiento@.movimientos =~= movimientos_pedidos(pedidos.take(k + 1)));
            k = k + 1;
        }
        assert(pedidos.take(k as int) =~= pedidos);
        let ghost antes = self@.asientos;
        self.asientos.push(asiento);
        assert(self@.asientos =~= antes.push(asiento@));
        assert(self@.cuentas =~= cuentas_tras_movimientos(cs, pedidos));
    }

    /// Makes an entry as `crear_asiento_con_fecha` does. Its date is
    /// `fecha` where one is given and today's date on the local clock where
    /// none is.
    pub fn crear_asiento(
        &mut self,
        concepto: &str,
        fecha: Option<Fecha>,
        movimientos: Vec<(&str, &str, i64)>,
    )
        requires
            old(self).wf(),
            cuentas_presentes(old(self)@.cuentas, vistas_pedidos(movimientos@)),
        ensures
            final(self).wf(),
            final(self)@.cuentas == cuentas_tras_movimientos(
                old(self)@.cuentas,
                vistas_pedidos(movimientos@),
            ),
            final(self)@.asientos.len() == old(self)@.asientos.len() + 1,
            final(self)@.asientos.drop_last() == old(self)@.asientos,
            final(self)@.asientos.last() == (AsientoV {
                concepto: concepto@,
                fecha: final(self)@.asientos.last().fecha,
                movimientos: movimientos_pedidos(vistas_pedidos(movimientos@)),
            }),
            fecha matches Some(f) ==> final(self)@.asientos.last().fecha == f,
            fecha is None ==> fecha_valida(final(self)@.asientos.last().fecha),
    {
        let dia = match fecha {
            Some(f) => f,
            None => hoy_local(),
        };
        self.crear_asiento_con_fecha(concepto, dia, movimientos);
        assert(self@.asientos.drop_last() =~= old(self)@.asientos);
    }

    /// Whether the chart holds an account of the name `nombre_cuenta`.
    pub fn validar_cuenta(&self, nombre_cuenta: &str) -> (r: bool)
        ensures
            r == (posicion_nombre(self@.cuentas, nombre_cuenta@) is Some),
    {
        self.indice_cuenta(nombre_cuenta).is_some()
    }

    /// Looks up the first account of the name `nombre_cuenta` and lends it
    /// out. The chart is well formed again once the account is.
    pub fn cuenta(&mut self, nombre_cuenta: &str) -> (r: Option<&mut Cuenta>)
        requires
            old(self).wf(),
        ensures
            match posicion_nombre(old(self)@.cuentas, nombre_cuenta@) {
                Some(i) => r matches Some(c) && c@ == old(self)@.cuentas[i] && c.wf()
                    && final(self)@.asientos == old(self)@.asientos
                    && final(self)@.cuentas == old(self)@.cuentas.update(i, final(c)@)
                    && (final(c).wf() ==> final(self).wf()),
                None => r is None && final(self)@ == old(self)@ && final(self).wf(),
            },
    {
        proof {
            lema_posicion_nombre(self@.cuentas, nombre_cuenta@);
        }
        match self.indice_cuenta(nombre_cuenta) {
            Some(i) => {
                assert(self@.cuentas[i as int] == self.cuentas@[i as int]@);
                Some(&mut self.cuentas[i])
            },
            None => None,
        }
    }
}

} // verus!
