//! The chart of accounts and the journal.

pub mod masa;
pub mod cuenta;
pub mod movimiento;
pub mod asiento;
pub mod partidas;
pub mod diario;
pub mod presupuesto;

pub use self::diario::{LibroDiario, LibroDiarioError};

use vstd::prelude::*;
use vstd::string::*;
use self::asiento::{Asiento, AsientoV};
use self::cuenta::{cuenta_en_texto, Apunte, Cuenta, CuentaV, Lado};
use self::diario::{
    apuntes_del_diario, asentar_lado, buscar_asiento, codigos_asiento_unicos, cuenta_mayorizada,
    cuentas_mayorizadas, diario_con_asiento, diario_en_texto, lema_posicion_asiento,
    todos_cuadran, vistas_asientos,
};
use self::masa::{interpretar_codigo, masa_de_codigo, Masa};
use self::movimiento::{vistas, Movimiento, MovimientoV};
use self::partidas::{
    asiento_de_partidas, codigos_unicos, cuentas_tras_apuntes, hay_cuenta_de_nombre,
    lema_apuntes_mismas_cuentas, lema_posicion_cuenta, lema_posicion_mismas_cuentas,
    lema_unicos_update, movimientos_resueltos, posicion_cuenta, vistas_cuentas, vistas_partidas,
};
use crate::fecha::{fecha_valida, hoy_local, Fecha};
use crate::texto::{mismo_texto, vistas_textos};

verus! {

/// What can go wrong when the chart of accounts is changed.
#[derive(Debug, PartialEq)]
pub enum CuadroError {
    /// The standard chart can only be loaded into an empty one.
    CuadroNoVacio,
    /// An account with that code exists already; holds its code and name.
    CuentaDuplicada(String),
    /// No account has that code; holds the code.
    CuentaInexistente(String),
}

/// How an account is named in a message: code, a tilde, name.
pub open spec fn codigo_y_nombre(c: CuentaV) -> Seq<char> {
    c.codigo + " ~ "@ + c.nombre
}

/// The message of a `CuadroError`.
pub open spec fn mensaje_error_cuadro(e: CuadroError) -> Seq<char> {
    match e {
        CuadroError::CuadroNoVacio => "El cuadro ya contiene cuentas. Puedes añadir de una en una, pero no cargar el PGC"@,
        CuadroError::CuentaDuplicada(s) => "La cuenta '"@ + s@ + "' ya existe"@,
        CuadroError::CuentaInexistente(s) => "El código de cuenta '"@ + s@ + "' no existe"@,
    }
}

impl CuadroError {
    /// The message that describes the error.
    pub fn to_string(&self) -> (r: String)
        ensures
            r@ == mensaje_error_cuadro(*self),
    {
        match self {
            CuadroError::CuadroNoVacio => String::from_str(
                "El cuadro ya contiene cuentas. Puedes añadir de una en una, pero no cargar el PGC",
            ),
            CuadroError::CuentaDuplicada(s) => {
                let mut t = String::from_str("La cuenta '");
                t.append(s.as_str());
                t.append("' ya existe");
                t
            },
            CuadroError::CuentaInexistente(s) => {
                let mut t = String::from_str("El código de cuenta '");
                t.append(s.as_str());
                t.append("' no existe");
                t
            },
        }
    }
}

/// The names and codes of a table of accounts, as plain text.
pub open spec fn vistas_tabla(tabla: Seq<(&str, &str)>) -> Seq<(Seq<char>, Seq<char>)> {
    tabla.map_values(|p: (&str, &str)| (p.0@, p.1@))
}

/// What loading a table of accounts gives: the accounts created, and the
/// account that stopped the load, if one did.
pub struct CargaV {
    pub cuentas: Seq<CuentaV>,
    pub duplicada: Option<CuentaV>,
}

/// Loads a table of names and codes into an empty chart, row after row. A
/// row whose code the chart of accounts places in no category is passed
/// over. A row whose code an earlier row has taken stops the load: the
/// accounts created so far stay, and the error names the earlier account.
pub open spec fn carga_de_tabla(tabla: Seq<(Seq<char>, Seq<char>)>) -> CargaV
    decreases tabla.len(),
{
    if tabla.len() == 0 {
        CargaV { cuentas: Seq::empty(), duplicada: None }
    } else {
        let antes = carga_de_tabla(tabla.drop_last());
        let (nombre, codigo) = tabla.last();
        if antes.duplicada is Some {
            antes
        } else {
            match masa_de_codigo(codigo) {
                Some(masa) => match posicion_cuenta(antes.cuentas, codigo) {
                    Some(i) => CargaV { cuentas: antes.cuentas, duplicada: Some(antes.cuentas[i]) },
                    None => CargaV {
                        cuentas: antes.cuentas.push(
                            CuentaV { nombre, codigo, masa, apuntes: Seq::empty() },
                        ),
                        duplicada: None,
                    },
                },
                None => antes,
            }
        }
    }
}

/// The codes of the rows of a table that the chart of accounts places in
/// no category, in the order of the table.
pub open spec fn codigos_perdidos(tabla: Seq<(Seq<char>, Seq<char>)>) -> Seq<Seq<char>>
    decreases tabla.len(),
{
    if tabla.len() == 0 {
        Seq::empty()
    } else {
        let antes = codigos_perdidos(tabla.drop_last());
        if masa_de_codigo(tabla.last().1) is None {
            antes.push(tabla.last().1)
        } else {
            antes
        }
    }
}

/// Gives the codes of the rows of `tabla` that `Cuadro::cargar_pgc` passes
/// over because the chart of accounts places them in no category.
pub fn codigos_sin_masa<'a>(tabla: &[(&'a str, &'a str)]) -> (r: Vec<&'a str>)
    ensures
        vistas_textos(r@) == codigos_perdidos(vistas_tabla(tabla@)),
{
    let ghost filas = vistas_tabla(tabla@);
    let mut r: Vec<&'a str> = Vec::new();
    let mut k: usize = 0;
    proof {
        assert(filas.take(0) =~= Seq::empty());
        assert(vistas_textos(r@) =~= Seq::empty());
    }
    while k < tabla.len()
        invariant
            k <= tabla.len(),
            filas == vistas_tabla(tabla@),
            vistas_textos(r@) == codigos_perdidos(filas.take(k as int)),
        decreases tabla.len() - k,
    {
        let codigo: &'a str = tabla[k].1;
        proof {
            assert(filas.take(k + 1).drop_last() =~= filas.take(k as int));
            assert(filas.take(k + 1).last().1 == codigo@);
        }
        let ghost antes = vistas_textos(r@);
        if interpretar_codigo(codigo).is_none() {
            r.push(codigo);
            assert(vistas_textos(r@) =~= antes.push(codigo@));
        }
        k = k + 1;
    }
    assert(filas.take(k as int) =~= filas);
    r
}

/// Once a row has stopped the load, the rows after it change nothing.
pub proof fn lema_carga_detenida(tabla: Seq<(Seq<char>, Seq<char>)>, k: int)
    requires
        0 <= k <= tabla.len(),
        carga_de_tabla(tabla.take(k)).duplicada is Some,
    ensures
        carga_de_tabla(tabla) == carga_de_tabla(tabla.take(k)),
    decreases tabla.len(),
{
    if k < tabla.len() {
        assert(tabla.drop_last().take(k) =~= tabla.take(k));
        lema_carga_detenida(tabla.drop_last(), k);
    } else {
        assert(tabla.take(k) =~= tabla);
    }
}

/// A list of accounts as a report shows it: one line for each.
pub open spec fn cuentas_en_texto(cs: Seq<CuentaV>) -> Seq<char>
    decreases cs.len(),
{
    if cs.len() == 0 {
        Seq::empty()
    } else {
        cuentas_en_texto(cs.drop_last()) + cuenta_en_texto(cs.last()) + "\n"@
    }
}

/// The mathematical content of a chart: its accounts in the order in which
/// they were created, and its journal.
pub struct CuadroV {
    pub cuentas: Seq<CuentaV>,
    pub libro_diario: Seq<AsientoV>,
}

/// The chart of accounts. It owns the accounts, each under a code of its
/// own, and a journal whose entries all balance.
#[derive(Debug, PartialEq)]
pub struct Cuadro {
    cuentas: Vec<Cuenta>,
    libro_diario: Vec<Asiento>,
}

impl View for Cuadro {
    type V = CuadroV;

    closed spec fn view(&self) -> CuadroV {
        CuadroV {
            cuentas: vistas_cuentas(self.cuentas@),
            libro_diario: vistas_asientos(self.libro_diario@),
        }
    }
}

impl Cuadro {
    /// Every account and entry is well formed, and no two accounts share a
    /// code.
    pub closed spec fn wf(&self) -> bool {
        &&& forall|i: int| 0 <= i < self.cuentas@.len() ==> (#[trigger] self.cuentas@[i]).wf()
        &&& forall|i: int|
            0 <= i < self.libro_diario@.len() ==> (#[trigger] self.libro_diario@[i]).wf()
        &&& codigos_unicos(self@.cuentas)
        &&& codigos_asiento_unicos(self@.libro_diario)
        &&& todos_cuadran(self@.libro_diario)
    }

    /// In a well-formed chart no two accounts share a code, no two entries
    /// of the journal share a code, and every entry of the journal
    /// balances.
    pub proof fn lema_invariantes(&self)
        requires
            self.wf(),
        ensures
            codigos_unicos(self@.cuentas),
            codigos_asiento_unicos(self@.libro_diario),
            todos_cuadran(self@.libro_diario),
    {
    }

    /// An empty chart: no accounts, no entries.
    pub fn new() -> (c: Cuadro)
        ensures
            c.wf(),
            c@ == (CuadroV { cuentas: Seq::empty(), libro_diario: Seq::empty() }),
    {
        let c = Cuadro { cuentas: Vec::new(), libro_diario: Vec::new() };
        assert(c@.cuentas =~= Seq::empty());
        assert(c@.libro_diario =~= Seq::empty());
        c
    }

    /// The position of the account with code `codigo`, if there is one.
    fn indice_cuenta(&self, codigo: &str) -> (r: Option<usize>)
        ensures
            match r {
                Some(i) => posicion_cuenta(self@.cuentas, codigo@) == Some(i as int) && i
                    < self.cuentas@.len(),
                None => posicion_cuenta(self@.cuentas, codigo@) is None,
            },
    {
        let mut i: usize = 0;
        while i < self.cuentas.len()
            invariant
                i <= self.cuentas.len(),
                forall|k: int| 0 <= k < i ==> (#[trigger] self@.cuentas[k]).codigo != codigo@,
            decreases self.cuentas.len() - i,
        {
            let c = self.cuentas[i].codigo();
            assert(self@.cuentas[i as int] == self.cuentas@[i as int]@);
            if mismo_texto(c.as_str(), codigo) {
                proof {
                    lema_posicion_cuenta(self@.cuentas, codigo@);
                }
                return Some(i);
            }
            i = i + 1;
        }
        proof {
            lema_posicion_cuenta(self@.cuentas, codigo@);
        }
        None
    }

    /// Whether the chart holds an account of the name `nombre_cuenta`.
    pub fn validar_cuenta(&self, nombre_cuenta: &str) -> (r: bool)
        ensures
            r == hay_cuenta_de_nombre(self@.cuentas, nombre_cuenta@),
    {
        let mut i: usize = 0;
        while i < self.cuentas.len()
            invariant
                i <= self.cuentas.len(),
                forall|k: int| 0 <= k < i ==> (#[trigger] self@.cuentas[k]).nombre != nombre_cuenta@,
            decreases self.cuentas.len() - i,
        {
            let n = self.cuentas[i].nombre();
            assert(self@.cuentas[i as int] == self.cuentas@[i as int]@);
            if mismo_texto(n.as_str(), nombre_cuenta) {
                return true;
            }
            i = i + 1;
        }
        false
    }

    /// Looks an account up by its code and lends it out. The chart is well
    /// formed again once the account is, under the code it had.
    pub fn buscar_cuenta(&mut self, codigo_cuenta: &str) -> (r: Option<&mut Cuenta>)
        requires
            old(self).wf(),
        ensures
            match posicion_cuenta(old(self)@.cuentas, codigo_cuenta@) {
                Some(i) => {
                    &&& r matches Some(c)
                    &&& c@ == old(self)@.cuentas[i]
                    &&& c.wf()
                    &&& final(self)@.libro_diario == old(self)@.libro_diario
                    &&& final(self)@.cuentas == old(self)@.cuentas.update(i, final(c)@)
                    &&& final(c).wf() && final(c)@.codigo == c@.codigo ==> final(self).wf()
                },
                None => r is None && final(self)@ == old(self)@ && final(self).wf(),
            },
    {
        proof {
            lema_posicion_cuenta(self@.cuentas, codigo_cuenta@);
        }
        match self.indice_cuenta(codigo_cuenta) {
            Some(i) => {
                assert(self@.cuentas[i as int] == self.cuentas@[i as int]@);
                proof {
                    let antes = self.cuentas@;
                    assert forall|x: Cuenta| #[trigger]
                        x@.codigo == antes[i as int]@.codigo implies codigos_unicos(
                        vistas_cuentas(antes.update(i as int, x)),
                    ) && vistas_cuentas(antes.update(i as int, x)) == vistas_cuentas(antes).update(
                        i as int,
                        x@,
                    ) by {
                        assert(vistas_cuentas(antes.update(i as int, x)) =~= vistas_cuentas(
                            antes,
                        ).update(i as int, x@));
                        lema_unicos_update(vistas_cuentas(antes), i as int, x@);
                    }
                }
                let c = &mut self.cuentas[i];
                Some(c)
            },
            None => None,
        }
    }

    /// Looks an account up by its code.
    pub fn find_cuenta(&self, codigo_cuenta: &str) -> (r: Option<&Cuenta>)
        requires
            self.wf(),
        ensures
            match posicion_cuenta(self@.cuentas, codigo_cuenta@) {
                Some(i) => r matches Some(c) && c@ == self@.cuentas[i] && c.wf(),
                None => r is None,
            },
    {
        proof {
            lema_posicion_cuenta(self@.cuentas, codigo_cuenta@);
        }
        match self.indice_cuenta(codigo_cuenta) {
            Some(i) => {
                assert(self@.cuentas[i as int] == self.cuentas@[i as int]@);
                Some(&self.cuentas[i])
            },
            None => None,
        }
    }

    /// Adds an account with no postings, unless the chart already holds one
    /// with the same code: then the chart stays as it was and the error
    /// tells which account that is.
    pub fn crear_cuenta(&mut self, nombre_cuenta: &str, codigo_cuenta: &str, masa: Masa) -> (r: Result<(), CuadroError>)
        requires
            old(self).wf(),
        ensures
            final(self).wf(),
            match posicion_cuenta(old(self)@.cuentas, codigo_cuenta@) {
                Some(i) => {
                    &&& r matches Err(CuadroError::CuentaDuplicada(s))
                    &&& s@ == codigo_y_nombre(old(self)@.cuentas[i])
                    &&& final(self)@ == old(self)@
                },
                None => {
                    &&& r is Ok
                    &&& final(self)@ == (CuadroV {
                        cuentas: old(self)@.cuentas.push(
                            CuentaV {
                                nombre: nombre_cuenta@,
                                codigo: codigo_cuenta@,
                                masa,
                                apuntes: Seq::empty(),
                            },
                        ),
                        ..old(self)@
                    })
                },
            },
    {
        proof {
            lema_posicion_cuenta(self@.cuentas, codigo_cuenta@);
        }
        match self.indice_cuenta(codigo_cuenta) {
            Some(i) => {
                assert(self@.cuentas[i as int] == self.cuentas@[i as int]@);
                let mut s = self.cuentas[i].codigo();
                s.append(" ~ ");
                let nombre = self.cuentas[i].nombre();
                s.append(nombre.as_str());
                Err(CuadroError::CuentaDuplicada(s))
            },
            None => {
                let cuenta = Cuenta::new(nombre_cuenta, codigo_cuenta, masa);
                self.cuentas.push(cuenta);
                assert(self@.cuentas =~= old(self)@.cuentas.push(cuenta@));
                assert(self@.libro_diario =~= old(self)@.libro_diario);
                Ok(())
            },
        }
    }

    /// Loads the table `tabla` of names and codes, each account under the
    /// category that `interpretar_codigo` gives to its code. Only an empty
    /// chart can be loaded: one that holds accounts stays as it was.
    pub fn cargar_pgc(&mut self, tabla: &[(&str, &str)]) -> (r: Result<(), CuadroError>)
        requires
            old(self).wf(),
        ensures
            final(self).wf(),
            final(self)@.libro_diario == old(self)@.libro_diario,
            old(self)@.cuentas.len() > 0 ==> r == Err::<(), CuadroError>(CuadroError::CuadroNoVacio)
                && final(self)@ == old(self)@,
            old(self)@.cuentas.len() == 0 ==> {
                let carga = carga_de_tabla(vistas_tabla(tabla@));
                &&& final(self)@.cuentas == carga.cuentas
                &&& match carga.duplicada {
                    Some(d) => r matches Err(CuadroError::CuentaDuplicada(s)) && s@
                        == codigo_y_nombre(d),
                    None => r is Ok,
                }
            },
    {
        if self.cuentas.len() != 0 {
            return Err(CuadroError::CuadroNoVacio);
        }
        let ghost filas = vistas_tabla(tabla@);
        let mut k: usize = 0;
        assert(self@.cuentas =~= Seq::<CuentaV>::empty());
        while k < tabla.len()
            invariant
                k <= tabla.len(),
                filas == vistas_tabla(tabla@),
                old(self)@.cuentas.len() == 0,
                self.wf(),
                self@.libro_diario == old(self)@.libro_diario,
                self@.cuentas == carga_de_tabla(filas.take(k as int)).cuentas,
                carga_de_tabla(filas.take(k as int)).duplicada is None,
            decreases tabla.len() - k,
        {
            let nombre: &str = tabla[k].0;
            let codigo: &str = tabla[k].1;
            proof {
                assert(filas.take(k + 1).drop_last() =~= filas.take(k as int));
                assert(filas.take(k + 1).last() == (nombre@, codigo@));
            }
            match interpretar_codigo(codigo) {
                Some(masa) => {
                    match self.crear_cuenta(nombre, codigo, masa) {
                        Ok(()) => {},
                        Err(e) => {
                            proof {
                                lema_carga_detenida(filas, k + 1);
                            }
                            return Err(e);
                        },
                    }
                },
                None => {},
            }
            k = k + 1;
        }
        assert(filas.take(k as int) =~= filas);
        Ok(())
    }

    /// The accounts, in the order in which they were created.
    pub fn cuentas(&self) -> (r: &Vec<Cuenta>)
        ensures
            vistas_cuentas(r@) == self@.cuentas,
    {
        &self.cuentas
    }

    /// The journal, oldest entry first.
    pub fn libro_diario(&self) -> (r: &Vec<Asiento>)
        ensures
            vistas_asientos(r@) == self@.libro_diario,
    {
        &self.libro_diario
    }

    /// Makes the movements that `partidas` give against the accounts of
    /// the chart, without posting anything.
    pub fn resolver_partidas(&self, partidas: &Vec<(&str, i64)>) -> (ms: Vec<Movimiento>)
        requires
            self.wf(),
        ensures
            vistas(ms@) == movimientos_resueltos(self@.cuentas, vistas_partidas(partidas@)),
    {
        let mut ms: Vec<Movimiento> = Vec::new();
        let mut k: usize = 0;
        let ghost ps = vistas_partidas(partidas@);
        assert(vistas(ms@) =~= Seq::<MovimientoV>::empty());
        while k < partidas.len()
            invariant
                k <= partidas.len(),
                ps == vistas_partidas(partidas@),
                vistas(ms@) == movimientos_resueltos(self@.cuentas, ps.take(k as int)),
            decreases partidas.len() - k,
        {
            let codigo: &str = partidas[k].0;
            let importe: i64 = partidas[k].1;
            proof {
                assert(ps.take(k + 1).drop_last() =~= ps.take(k as int));
                assert(ps.take(k + 1).last() == (codigo@, importe));
                lema_posicion_cuenta(self@.cuentas, codigo@);
            }
            let ghost antes = vistas(ms@);
            match self.indice_cuenta(codigo) {
                Some(i) => {
                    assert(self@.cuentas[i as int] == self.cuentas@[i as int]@);
                    let c = self.cuentas[i].codigo();
                    let n = self.cuentas[i].nombre();
                    let m = Movimiento::de_partes(importe, c.as_str(), n.as_str());
                    ms.push(m);
                    assert(vistas(ms@) =~= antes.push(m@));
                },
                None => {},
            }
            k = k + 1;
        }
        assert(ps.take(k as int) =~= ps);
        ms
    }

    /// Posts each line of `partidas` whose code names an account to that
    /// account, on side `lado`, and returns the movements made. A line
    /// whose code names no account is passed over.
    pub fn asentar_partidas(&mut self, lado: Lado, partidas: &Vec<(&str, i64)>) -> (ms: Vec<Movimiento>)
        requires
            old(self).wf(),
        ensures
            final(self).wf(),
            final(self)@.libro_diario == old(self)@.libro_diario,
            final(self)@.cuentas == cuentas_tras_apuntes(
                old(self)@.cuentas,
                lado,
                vistas_partidas(partidas@),
            ),
            vistas(ms@) == movimientos_resueltos(old(self)@.cuentas, vistas_partidas(partidas@)),
    {
        let mut ms: Vec<Movimiento> = Vec::new();
        let mut k: usize = 0;
        let ghost ps = vistas_partidas(partidas@);
        let ghost cs = self@.cuentas;
        assert(vistas(ms@) =~= Seq::<MovimientoV>::empty());
        while k < partidas.len()
            invariant
                k <= partidas.len(),
                ps == vistas_partidas(partidas@),
                cs == old(self)@.cuentas,
                self.wf(),
                self@.libro_diario == old(self)@.libro_diario,
                self@.cuentas == cuentas_tras_apuntes(cs, lado, ps.take(k as int)),
                vistas(ms@) == movimientos_resueltos(cs, ps.take(k as int)),
            decreases partidas.len() - k,
        {
            let codigo: &str = partidas[k].0;
            let importe: i64 = partidas[k].1;
            let ghost antes = vistas(ms@);
            let ghost cuentas_antes = self@.cuentas;
            proof {
                assert(ps.take(k + 1).drop_last() =~= ps.take(k as int));
                assert(ps.take(k + 1).last() == (codigo@, importe));
                lema_apuntes_mismas_cuentas(cs, lado, ps.take(k as int));
                lema_posicion_mismas_cuentas(cuentas_antes, cs, codigo@);
                lema_posicion_cuenta(cs, codigo@);
            }
            match self.indice_cuenta(codigo) {
                Some(i) => {
                    assert(self@.cuentas[i as int] == self.cuentas@[i as int]@);
                    let m = Movimiento::new(importe, &mut self.cuentas[i]);
                    match lado {
                        Lado::Debe => self.cuentas[i].saldo_deudor(importe),
                        Lado::Haber => self.cuentas[i].saldo_acreedor(importe),
                    }
                    ms.push(m);
                    proof {
                        assert(vistas(ms@) =~= antes.push(m@));
                        assert(self@.cuentas =~= cuentas_antes.update(
                            i as int,
                            cuentas_antes[i as int].con_apunte(Apunte { lado, importe }),
                        ));
                        assert(self@.libro_diario =~= old(self)@.libro_diario);
                    }
                },
                None => {},
            }
            k = k + 1;
        }
        assert(ps.take(k as int) =~= ps);
        ms
    }

    /// Posts an entry dated `fecha` to the journal under the code
    /// `codigo_asiento`. Its movements are those that `debe` and `haber`
    /// give against the accounts of the chart. An entry that does not
    /// balance is refused and the journal stays as it was. One that
    /// balances takes the place of the entry that had its code, or goes to
    /// the end where none had. No account is touched: the ledger is derived
    /// from the journal by `mayorizar_cuenta`.
    pub fn crear_asiento_con_fecha(
        &mut self,
        concepto: &str,
        fecha: Fecha,
        debe: Vec<(&str, i64)>,
        haber: Vec<(&str, i64)>,
        codigo_asiento: &str,
    ) -> (r: Result<(), LibroDiarioError>)
        requires
            old(self).wf(),
        ensures
            final(self).wf(),
            final(self)@.cuentas == old(self)@.cuentas,
            ({
                let a = asiento_de_partidas(
                    old(self)@.cuentas,
                    concepto@,
                    fecha,
                    codigo_asiento@,
                    vistas_partidas(debe@),
                    vistas_partidas(haber@),
                );
                if a.cuadra() {
                    r is Ok && final(self)@.libro_diario == diario_con_asiento(
                        old(self)@.libro_diario,
                        a,
                    )
                } else {
                    r == Err::<(), LibroDiarioError>(LibroDiarioError::AsientoDesequilibrado)
                        && final(self)@.libro_diario == old(self)@.libro_diario
                }
            }),
    {
        let vec_debe = self.resolver_partidas(&debe);
        let vec_haber = self.resolver_partidas(&haber);
        let asiento = Asiento::con_codigo(concepto, fecha, vec_debe, vec_haber, codigo_asiento);
        if !asiento.validar_saldos() {
            return Err(LibroDiarioError::AsientoDesequilibrado);
        }
        let ghost diario = self@.libro_diario;
        proof {
            lema_posicion_asiento(diario, codigo_asiento@);
        }
        match buscar_asiento(&self.libro_diario, codigo_asiento) {
            Some(i) => {
                self.libro_diario[i] = asiento;
                assert(self@.libro_diario =~= diario.update(i as int, asiento@));
            },
            None => {
                self.libro_diario.push(asiento);
                assert(self@.libro_diario =~= diario.push(asiento@));
            },
        }
        assert(self@.cuentas =~= old(self)@.cuentas);
        Ok(())
    }

    /// Posts an entry to the journal as `crear_asiento_con_fecha` does. Its
    /// date is `fecha` where one is given and today's date on the local
    /// clock where none is.
    pub fn crear_asiento(
        &mut self,
        concepto: &str,
        fecha: Option<Fecha>,
        debe: Vec<(&str, i64)>,
        haber: Vec<(&str, i64)>,
        codigo_asiento: &str,
    ) -> (r: Result<(), LibroDiarioError>)
        requires
            old(self).wf(),
        ensures
            final(self).wf(),
            final(self)@.cuentas == old(self)@.cuentas,
            exists|dia: Fecha|
                {
                    let a = #[trigger] asiento_de_partidas(
                        old(self)@.cuentas,
                        concepto@,
                        dia,
                        codigo_asiento@,
                        vistas_partidas(debe@),
                        vistas_partidas(haber@),
                    );
                    &&& fecha matches Some(f) ==> dia == f
                    &&& fecha is None ==> fecha_valida(dia)
                    &&& if a.cuadra() {
                        r is Ok && final(self)@.libro_diario == diario_con_asiento(
                            old(self)@.libro_diario,
                            a,
                        )
                    } else {
                        r == Err::<(), LibroDiarioError>(LibroDiarioError::AsientoDesequilibrado)
                            && final(self)@.libro_diario == old(self)@.libro_diario
                    }
                },
    {
        let dia = match fecha {
            Some(f) => f,
            None => hoy_local(),
        };
        let ghost a = asiento_de_partidas(
            self@.cuentas,
            concepto@,
            dia,
            codigo_asiento@,
            vistas_partidas(debe@),
            vistas_partidas(haber@),
        );
        self.crear_asiento_con_fecha(concepto, dia, debe, haber, codigo_asiento)
    }

    /// Rebuilds the ledger of the account of code `codigo` from the
    /// journal: the account forgets its postings and then receives, entry
    /// after entry, those that the journal makes to its code. Fails, and
    /// changes nothing, where the chart has no such account.
    pub fn mayorizar_cuenta(&mut self, codigo: &str) -> (r: Result<(), CuadroError>)
        requires
            old(self).wf(),
        ensures
            final(self).wf(),
            final(self)@.libro_diario == old(self)@.libro_diario,
            match posicion_cuenta(old(self)@.cuentas, codigo@) {
                Some(i) => {
                    &&& r is Ok
                    &&& final(self)@.cuentas == old(self)@.cuentas.update(
                        i,
                        CuentaV {
                            apuntes: apuntes_del_diario(old(self)@.libro_diario, codigo@),
                            ..old(self)@.cuentas[i]
                        },
                    )
                },
                None => {
                    &&& r matches Err(CuadroError::CuentaInexistente(s))
                    &&& s@ == codigo@
                    &&& final(self)@ == old(self)@
                },
            },
    {
        proof {
            lema_posicion_cuenta(self@.cuentas, codigo@);
        }
        match self.indice_cuenta(codigo) {
            Some(i) => {
                self.mayorizar_posicion(i);
                Ok(())
            },
            None => Err(CuadroError::CuentaInexistente(codigo.to_owned())),
        }
    }

    /// Rebuilds the ledger of every account from the journal.
    pub fn mayorizar(&mut self)
        requires
            old(self).wf(),
        ensures
            final(self).wf(),
            final(self)@.libro_diario == old(self)@.libro_diario,
            final(self)@.cuentas == cuentas_mayorizadas(
                old(self)@.cuentas,
                old(self)@.libro_diario,
            ),
    {
        let mut i: usize = 0;
        let ghost cs = self@.cuentas;
        let ghost diario = self@.libro_diario;
        while i < self.cuentas.len()
            invariant
                i <= self.cuentas.len(),
                self.wf(),
                self@.libro_diario == diario,
                self@.cuentas.len() == cs.len(),
                self.cuentas@.len() == cs.len(),
                forall|k: int| 0 <= k < i ==> self@.cuentas[k] == cuenta_mayorizada(cs[k], diario),
                forall|k: int| i <= k < cs.len() ==> self@.cuentas[k] == cs[k],
            decreases self.cuentas.len() - i,
        {
            assert(self@.cuentas.len() == self.cuentas@.len());
            self.mayorizar_posicion(i);
            assert(self@.cuentas.len() == self.cuentas@.len());
            i = i + 1;
        }
        assert(self@.cuentas =~= cuentas_mayorizadas(cs, diario));
    }

    /// The accounts as a report shows them, one line for each.
    pub fn to_string(&self) -> (r: String)
        requires
            self.wf(),
        ensures
            r@ == cuentas_en_texto(self@.cuentas),
    {
        let mut s = String::new();
        let mut i: usize = 0;
        let ghost cs = self@.cuentas;
        assert(s@ =~= cuentas_en_texto(cs.take(0)));
        while i < self.cuentas.len()
            invariant
                i <= self.cuentas.len(),
                self.wf(),
                cs == self@.cuentas,
                s@ == cuentas_en_texto(cs.take(i as int)),
            decreases self.cuentas.len() - i,
        {
            proof {
                assert(cs.take(i + 1).drop_last() =~= cs.take(i as int));
                assert(cs.take(i + 1).last() == self.cuentas@[i as int]@);
            }
            let linea = self.cuentas[i].to_string();
            s.append(linea.as_str());
            s.append("\n");
            assert(s@ =~= cuentas_en_texto(cs.take(i + 1)));
            i = i + 1;
        }
        assert(cs.take(i as int) =~= cs);
        s
    }

    /// The journal as a report shows it, one box for each entry.
    pub fn texto_libro_diario(&self) -> (r: String)
        ensures
            r@ == diario_en_texto(self@.libro_diario),
    {
        let mut s = String::new();
        let mut i: usize = 0;
        let ghost diario = self@.libro_diario;
        assert(s@ =~= diario_en_texto(diario.take(0)));
        while i < self.libro_diario.len()
            invariant
                i <= self.libro_diario.len(),
                diario == self@.libro_diario,
                s@ == diario_en_texto(diario.take(i as int)),
            decreases self.libro_diario.len() - i,
        {
            proof {
                assert(diario.take(i + 1).drop_last() =~= diario.take(i as int));
                assert(diario.take(i + 1).last() == self.libro_diario@[i as int]@);
            }
            let caja = self.libro_diario[i].to_string();
            s.append(caja.as_str());
            assert(s@ =~= diario_en_texto(diario.take(i + 1)));
            i = i + 1;
        }
        assert(diario.take(i as int) =~= diario);
        s
    }

    /// Rebuilds the ledger of the account at position `i` from the journal.
    fn mayorizar_posicion(&mut self, i: usize)
        requires
            old(self).wf(),
            i < old(self)@.cuentas.len(),
        ensures
            final(self).wf(),
            final(self)@.libro_diario == old(self)@.libro_diario,
            final(self)@.cuentas == old(self)@.cuentas.update(
                i as int,
                CuentaV {
                    apuntes: apuntes_del_diario(
                        old(self)@.libro_diario,
                        old(self)@.cuentas[i as int].codigo,
                    ),
                    ..old(self)@.cuentas[i as int]
                },
            ),
    {
        assert(self@.cuentas[i as int] == self.cuentas@[i as int]@);
        let codigo = self.cuentas[i].codigo();
        let nombre = self.cuentas[i].nombre();
        let masa = self.cuentas[i].masa();
        let mut nueva = Cuenta::new(nombre.as_str(), codigo.as_str(), masa);
        let ghost diario = self@.libro_diario;
        let mut j: usize = 0;
        assert(nueva@.apuntes =~= apuntes_del_diario(diario.take(0), codigo@));
        while j < self.libro_diario.len()
            invariant
                j <= self.libro_diario.len(),
                diario == self@.libro_diario,
                nueva.wf(),
                nueva@ == (CuentaV {
                    apuntes: apuntes_del_diario(diario.take(j as int), codigo@),
                    ..nueva@
                }),
                nueva@.codigo == codigo@,
                nueva@.nombre == nombre@,
                nueva@.masa == masa,
            decreases self.libro_diario.len() - j,
        {
            proof {
                assert(diario.take(j + 1).drop_last() =~= diario.take(j as int));
                assert(diario.take(j + 1).last() == self.libro_diario@[j as int]@);
            }
            let asiento = &self.libro_diario[j];
            asentar_lado(&mut nueva, asiento.debe(), Lado::Debe, codigo.as_str());
            asentar_lado(&mut nueva, asiento.haber(), Lado::Haber, codigo.as_str());
            assert(nueva@.apuntes =~= apuntes_del_diario(diario.take(j + 1), codigo@));
            j = j + 1;
        }
        assert(diario.take(j as int) =~= diario);
        let ghost cuentas_antes = self@.cuentas;
        self.cuentas[i] = nueva;
        assert(self@.cuentas =~= cuentas_antes.update(i as int, nueva@));
        assert(self@.libro_diario =~= diario);
    }
}

} // verus!
