//! Reading the flat files: the list of accounts, the files of entries and
//! the opening balance. Nothing here touches a file: each function takes
//! the text that was read.

use vstd::prelude::*;
use vstd::string::*;
use crate::blancos::{campos, recortado, recortar, separar_campos};
use crate::cuadro_contable::asiento::{codigo_de_fecha, generar_codigo_en};
use crate::cuadro_contable::cuenta::CuentaV;
use crate::cuadro_contable::masa::{interpretar_codigo, masa_de_codigo};
use crate::cuadro_contable::diario::{diario_con_asiento, LibroDiarioError};
use crate::cuadro_contable::partidas::{asiento_de_partidas, posicion_cuenta, vistas_partidas};
use crate::cuadro_contable::Cuadro;
use crate::fecha::{
    chrono_fecha_de_texto, fecha_de_texto, fecha_valida, hoy_local, hoy_utc, Fecha,
};
use crate::importe::{importe_leido, parsear_importe};
use crate::patrones::{capturas, capturas_todas, grupo_o_vacio, regex_capturas, regex_capturas_todas, texto_grupo};
use crate::texto::{mismo_texto, partes, partir, vistas_textos};

verus! {

/// A line of the list of accounts: a code in digits, one white space, the
/// name, the end of the line.
pub const PATRON_CUENTAS: &'static str = r"(?P<codigo>[0-9]+)\s(?P<nombre>.+)\n";

/// The name of a file of entries: eight digits of date, more digits, and
/// the ending `.data`.
pub const PATRON_ARCHIVO: &'static str = r"^(?P<fecha>[0-9]{8})(?:\d+)\.data$";

/// The digits at the start of the name of a file of entries: the first
/// eight are its date, all of them its code.
pub const PATRON_CODIGO_ARCHIVO: &'static str = r"^(?P<fecha>[0-9]{8})[0-9]*";

/// A file of entries: the concept, then under `DEBE` and under `HABER` the
/// lines of each side, closed by `///`.
pub const PATRON_ASIENTO: &'static str =
    r"^(?s)(?P<concepto>.+)\n\nDEBE\n(?P<debe>.+)\n\nHABER\n(?P<haber>.+)\n\n///";

/// How the name of a file writes its date: year, month, day, in digits.
pub const FORMATO_FECHA: &'static str = "%Y%m%d";

/// The accounts `cs` after the lines that were found in a list of accounts
/// have been taken in, in order. A line gives an account under its code and
/// name unless the chart of accounts places the code in no category or an
/// account already has the code.
pub open spec fn cuentas_tras_capturas(cs: Seq<CuentaV>, lineas: Seq<Seq<Option<Seq<char>>>>) -> Seq<
    CuentaV,
>
    decreases lineas.len(),
{
    if lineas.len() == 0 {
        cs
    } else {
        let antes = cuentas_tras_capturas(cs, lineas.drop_last());
        let codigo = texto_grupo(lineas.last(), 1);
        let nombre = texto_grupo(lineas.last(), 2);
        match masa_de_codigo(codigo) {
            Some(masa) => if posicion_cuenta(antes, codigo) is None {
                antes.push(CuentaV { nombre, codigo, masa, apuntes: Seq::empty() })
            } else {
                antes
            },
            None => antes,
        }
    }
}

/// The codes of the lines found in a list of accounts that give no account
/// when they are taken in after the accounts `cs`, in order: those that the
/// chart of accounts places in no category, and those that an account
/// already has.
pub open spec fn codigos_no_tomados(cs: Seq<CuentaV>, lineas: Seq<Seq<Option<Seq<char>>>>) -> Seq<
    Seq<char>,
>
    decreases lineas.len(),
{
    if lineas.len() == 0 {
        Seq::empty()
    } else {
        let antes = codigos_no_tomados(cs, lineas.drop_last());
        let cuentas = cuentas_tras_capturas(cs, lineas.drop_last());
        let codigo = texto_grupo(lineas.last(), 1);
        if masa_de_codigo(codigo) is Some && posicion_cuenta(cuentas, codigo) is None {
            antes
        } else {
            antes.push(codigo)
        }
    }
}

/// The contents of a list of owned texts.
pub open spec fn vistas_cadenas(ts: Seq<String>) -> Seq<Seq<char>> {
    ts.map_values(|t: String| t@)
}

/// Takes into `cuadro` the lines that the search for `PATRON_CUENTAS` found
/// in a list of accounts, and gives back the codes of the lines that it
/// passed over.
pub fn cargar_cuentas(cuadro: &mut Cuadro, lineas: &Vec<Vec<Option<String>>>) -> (perdidos: Vec<
    String,
>)
    requires
        old(cuadro).wf(),
    ensures
        final(cuadro).wf(),
        final(cuadro)@.libro_diario == old(cuadro)@.libro_diario,
        final(cuadro)@.cuentas == cuentas_tras_capturas(old(cuadro)@.cuentas, lineas.deep_view()),
        vistas_cadenas(perdidos@) == codigos_no_tomados(old(cuadro)@.cuentas, lineas.deep_view()),
{
    let ghost todas = lineas.deep_view();
    let mut perdidos: Vec<String> = Vec::new();
    let mut k: usize = 0;
    proof {
        assert(todas.take(0) =~= Seq::empty());
        assert(vistas_cadenas(perdidos@) =~= Seq::empty());
    }
    while k < lineas.len()
        invariant
            k <= lineas.len(),
            todas == lineas.deep_view(),
            cuadro.wf(),
            cuadro@.libro_diario == old(cuadro)@.libro_diario,
            cuadro@.cuentas == cuentas_tras_capturas(old(cuadro)@.cuentas, todas.take(k as int)),
            vistas_cadenas(perdidos@) == codigos_no_tomados(
                old(cuadro)@.cuentas,
                todas.take(k as int),
            ),
        decreases lineas.len() - k,
    {
        proof {
            assert(todas.take(k + 1).drop_last() =~= todas.take(k as int));
            assert(todas.take(k + 1).last() == lineas@[k as int].deep_view());
        }
        let codigo = grupo_o_vacio(&lineas[k], 1);
        let nombre = grupo_o_vacio(&lineas[k], 2);
        let ghost antes = vistas_cadenas(perdidos@);
        let tomada = match interpretar_codigo(codigo) {
            Some(masa) => cuadro.crear_cuenta(nombre, codigo, masa).is_ok(),
            None => false,
        };
        if !tomada {
            perdidos.push(codigo.to_owned());
            assert(vistas_cadenas(perdidos@) =~= antes.push(codigo@));
        }
        k = k + 1;
    }
    assert(todas.take(k as int) =~= todas);
    perdidos
}

/// Reads a list of accounts, one `<code> <name>` to the line, takes each
/// into `cuadro`, and gives back the codes of the lines that it passed
/// over.
pub fn procesar_cadena(cadena: &str, cuadro: &mut Cuadro) -> (perdidos: Vec<String>)
    requires
        old(cuadro).wf(),
    ensures
        final(cuadro).wf(),
        final(cuadro)@.libro_diario == old(cuadro)@.libro_diario,
        final(cuadro)@.cuentas == cuentas_tras_capturas(
            old(cuadro)@.cuentas,
            regex_capturas_todas(PATRON_CUENTAS@, cadena@),
        ),
        vistas_cadenas(perdidos@) == codigos_no_tomados(
            old(cuadro)@.cuentas,
            regex_capturas_todas(PATRON_CUENTAS@, cadena@),
        ),
{
    let lineas = capturas_todas(PATRON_CUENTAS, cadena);
    cargar_cuentas(cuadro, &lineas)
}

/// The date in the name of a file of entries, given what the search for
/// `PATRON_ARCHIVO` found in the name: the date that chrono reads in its
/// first eight digits.
pub open spec fn fecha_de_capturas(encontrado: Option<Seq<Option<Seq<char>>>>) -> Option<Fecha> {
    match encontrado {
        Some(grupos) => chrono_fecha_de_texto(texto_grupo(grupos, 1), FORMATO_FECHA@),
        None => None,
    }
}

/// The date in the name of a file of entries, given what the search for
/// `PATRON_ARCHIVO` found in the name.
pub fn fecha_de_archivo(encontrado: &Option<Vec<Option<String>>>) -> (r: Option<Fecha>)
    ensures
        r == fecha_de_capturas(encontrado.deep_view()),
        r matches Some(f) ==> fecha_valida(f),
{
    match encontrado {
        Some(grupos) => fecha_de_texto(grupo_o_vacio(grupos, 1), FORMATO_FECHA),
        None => None,
    }
}

/// Tells whether `nombre` is the name of a file of entries, and gives the
/// date that it carries if so.
pub fn validar_archivo(nombre: &str) -> (r: Option<Fecha>)
    ensures
        r == fecha_de_capturas(regex_capturas(PATRON_ARCHIVO@, nombre@)),
        r matches Some(f) ==> fecha_valida(f),
{
    let encontrado = capturas(PATRON_ARCHIVO, nombre);
    fecha_de_archivo(&encontrado)
}

/// The code of the `orden`-th entry made today, by the date in universal
/// time.
pub fn generar_codigo(orden: usize) -> (r: String)
    ensures
        exists|hoy: Fecha| fecha_valida(hoy) && r@ == #[trigger] codigo_de_fecha(hoy, orden as nat),
{
    let hoy = hoy_utc();
    generar_codigo_en(hoy, orden)
}

/// The lines of one side of an entry as they were read: for each, the code
/// of an account and an amount in cents.
pub open spec fn vistas_leidas(ps: Seq<(String, i64)>) -> Seq<(Seq<char>, i64)> {
    ps.map_values(|p: (String, i64)| (p.0@, p.1))
}

/// The code and the amount that a line of a file of entries gives. The
/// line is cut at each space: the first piece is the code, the second,
/// trimmed, the amount. A line without a second piece, or whose second
/// piece writes no amount, gives nothing.
pub open spec fn partida_de_linea(linea: Seq<char>) -> Option<(Seq<char>, i64)> {
    let piezas = partes(linea, ' ');
    if piezas.len() >= 2 {
        match importe_leido(recortado(piezas[1])) {
            Some(v) => Some((piezas[0], v)),
            None => None,
        }
    } else {
        None
    }
}

/// The codes and amounts that the lines `lineas` give, in their order; a
/// line that gives nothing is left out.
pub open spec fn partidas_de_lineas(lineas: Seq<Seq<char>>) -> Seq<(Seq<char>, i64)>
    decreases lineas.len(),
{
    if lineas.len() == 0 {
        Seq::empty()
    } else {
        let antes = partidas_de_lineas(lineas.drop_last());
        match partida_de_linea(lineas.last()) {
            Some(p) => antes.push(p),
            None => antes,
        }
    }
}

/// The lines of `lineas` that give no code and amount, in their order.
pub open spec fn lineas_sin_partida(lineas: Seq<Seq<char>>) -> Seq<Seq<char>>
    decreases lineas.len(),
{
    if lineas.len() == 0 {
        Seq::empty()
    } else {
        let antes = lineas_sin_partida(lineas.drop_last());
        match partida_de_linea(lineas.last()) {
            Some(_) => antes,
            None => antes.push(lineas.last()),
        }
    }
}

/// The codes and amounts that one side of a file of entries gives: those
/// of its lines that can be read, in the order of the file.
pub open spec fn partidas_de_texto(t: Seq<char>) -> Seq<(Seq<char>, i64)> {
    partidas_de_lineas(partes(t, '\n'))
}

/// Reads the code and the amount of one line of a file of entries, if the
/// line holds both.
pub fn leer_partida(linea: &str) -> (r: Option<(String, i64)>)
    ensures
        match r {
            Some(p) => partida_de_linea(linea@) == Some((p.0@, p.1)),
            None => partida_de_linea(linea@) is None,
        },
{
    proof {
        crate::texto::lema_partes_no_vacio(linea@, ' ');
    }
    let piezas = partir(linea, ' ');
    assert(vistas_textos(piezas@)[0] == piezas@[0]@);
    if piezas.len() >= 2 {
        assert(vistas_textos(piezas@)[1] == piezas@[1]@);
        match parsear_importe(recortar(piezas[1])) {
            Some(v) => Some((piezas[0].to_owned(), v)),
            None => None,
        }
    } else {
        None
    }
}

/// Reads the codes and amounts of the lines of one side of a file of
/// entries, leaving out the lines that cannot be read.
pub fn leer_partidas(texto: &str) -> (r: Vec<(String, i64)>)
    ensures
        vistas_leidas(r@) == partidas_de_texto(texto@),
{
    let lineas = partir(texto, '\n');
    let mut r: Vec<(String, i64)> = Vec::new();
    let mut k: usize = 0;
    let ghost todas = vistas_textos(lineas@);
    proof {
        assert(todas.take(0) =~= Seq::<Seq<char>>::empty());
        assert(vistas_leidas(r@) =~= Seq::empty());
    }
    while k < lineas.len()
        invariant
            k <= lineas.len(),
            todas == vistas_textos(lineas@),
            todas == partes(texto@, '\n'),
            vistas_leidas(r@) == partidas_de_lineas(todas.take(k as int)),
        decreases lineas.len() - k,
    {
        proof {
            assert(todas.take(k + 1).drop_last() =~= todas.take(k as int));
            assert(todas.take(k + 1).last() == lineas@[k as int]@);
        }
        let ghost antes = vistas_leidas(r@);
        match leer_partida(lineas[k]) {
            Some(partida) => {
                let ghost p = (partida.0@, partida.1);
                r.push(partida);
                assert(vistas_leidas(r@) =~= antes.push(p));
            },
            None => {},
        }
        k = k + 1;
    }
    assert(todas.take(k as int) =~= todas);
    r
}

/// The lines of one side of a file of entries that cannot be read, for
/// whoever wants to tell of them.
pub fn leer_lineas_ilegibles(texto: &str) -> (r: Vec<String>)
    ensures
        vistas_cadenas(r@) == lineas_sin_partida(partes(texto@, '\n')),
{
    let lineas = partir(texto, '\n');
    let mut r: Vec<String> = Vec::new();
    let mut k: usize = 0;
    let ghost todas = vistas_textos(lineas@);
    proof {
        assert(todas.take(0) =~= Seq::<Seq<char>>::empty());
        assert(vistas_cadenas(r@) =~= Seq::empty());
    }
    while k < lineas.len()
        invariant
            k <= lineas.len(),
            todas == vistas_textos(lineas@),
            todas == partes(texto@, '\n'),
            vistas_cadenas(r@) == lineas_sin_partida(todas.take(k as int)),
        decreases lineas.len() - k,
    {
        proof {
            assert(todas.take(k + 1).drop_last() =~= todas.take(k as int));
            assert(todas.take(k + 1).last() == lineas@[k as int]@);
        }
        let ghost antes = vistas_cadenas(r@);
        if leer_partida(lineas[k]).is_none() {
            r.push(lineas[k].to_owned());
            assert(vistas_cadenas(r@) =~= antes.push(lineas@[k as int]@));
        }
        k = k + 1;
    }
    assert(todas.take(k as int) =~= todas);
    r
}

/// The mathematical content of an entry that was read from a file.
pub struct AsientoLeidoV {
    pub concepto: Seq<char>,
    pub fecha: Fecha,
    pub codigo: Seq<char>,
    pub debe: Seq<(Seq<char>, i64)>,
    pub haber: Seq<(Seq<char>, i64)>,
    pub ilegibles: Seq<Seq<char>>,
}

/// An entry as a file gives it: its concept, the date and the code that
/// the name of the file carries, the lines of each side that could be read,
/// and those of both sides that could not.
#[derive(Debug, PartialEq)]
pub struct AsientoLeido {
    pub concepto: String,
    pub fecha: Fecha,
    pub codigo: String,
    pub debe: Vec<(String, i64)>,
    pub haber: Vec<(String, i64)>,
    pub ilegibles: Vec<String>,
}

impl View for AsientoLeido {
    type V = AsientoLeidoV;

    open spec fn view(&self) -> AsientoLeidoV {
        AsientoLeidoV {
            concepto: self.concepto@,
            fecha: self.fecha,
            codigo: self.codigo@,
            debe: vistas_leidas(self.debe@),
            haber: vistas_leidas(self.haber@),
            ilegibles: vistas_cadenas(self.ilegibles@),
        }
    }
}

/// The entry that a file gives, from what the search for
/// `PATRON_CODIGO_ARCHIVO` found in its name and the search for
/// `PATRON_ASIENTO` found in its contents. There is none where either
/// found nothing, or where the first eight digits of the name are no date.
pub open spec fn asiento_de_capturas(
    nombre: Option<Seq<Option<Seq<char>>>>,
    contenido: Option<Seq<Option<Seq<char>>>>,
) -> Option<AsientoLeidoV> {
    match (nombre, contenido) {
        (Some(n), Some(c)) => match chrono_fecha_de_texto(texto_grupo(n, 1), FORMATO_FECHA@) {
            Some(fecha) => Some(
                AsientoLeidoV {
                    concepto: texto_grupo(c, 1),
                    fecha,
                    codigo: texto_grupo(n, 0),
                    debe: partidas_de_texto(texto_grupo(c, 2)),
                    haber: partidas_de_texto(texto_grupo(c, 3)),
                    ilegibles: lineas_sin_partida(partes(texto_grupo(c, 2), '\n'))
                        + lineas_sin_partida(partes(texto_grupo(c, 3), '\n')),
                },
            ),
            None => None,
        },
        _ => None,
    }
}

/// Puts together the entry that a file gives, from what was found in its
/// name and in its contents.
pub fn componer_asiento(
    nombre: &Option<Vec<Option<String>>>,
    contenido: &Option<Vec<Option<String>>>,
) -> (r: Option<AsientoLeido>)
    ensures
        match r {
            Some(a) => asiento_de_capturas(nombre.deep_view(), contenido.deep_view()) == Some(a@),
            None => asiento_de_capturas(nombre.deep_view(), contenido.deep_view()) is None,
        },
{
    match (nombre, contenido) {
        (Some(n), Some(c)) => {
            match fecha_de_texto(grupo_o_vacio(n, 1), FORMATO_FECHA) {
                Some(fecha) => {
                    let mut ilegibles = leer_lineas_ilegibles(grupo_o_vacio(c, 2));
                    let mut otras = leer_lineas_ilegibles(grupo_o_vacio(c, 3));
                    let ghost unas = ilegibles@;
                    let ghost mas = otras@;
                    ilegibles.append(&mut otras);
                    assert(vistas_cadenas(ilegibles@) =~= vistas_cadenas(unas) + vistas_cadenas(
                        mas,
                    ));
                    Some(
                        AsientoLeido {
                            concepto: grupo_o_vacio(c, 1).to_owned(),
                            fecha,
                            codigo: grupo_o_vacio(n, 0).to_owned(),
                            debe: leer_partidas(grupo_o_vacio(c, 2)),
                            haber: leer_partidas(grupo_o_vacio(c, 3)),
                            ilegibles,
                        },
                    )
                },
                None => None,
            }
        },
        _ => None,
    }
}

/// Reads the entry that the file of name `nombre_archivo` and contents
/// `contenido` holds.
pub fn leer_asiento(nombre_archivo: &str, contenido: &str) -> (r: Option<AsientoLeido>)
    ensures
        match r {
            Some(a) => asiento_de_capturas(
                regex_capturas(PATRON_CODIGO_ARCHIVO@, nombre_archivo@),
                regex_capturas(PATRON_ASIENTO@, contenido@),
            ) == Some(a@),
            None => asiento_de_capturas(
                regex_capturas(PATRON_CODIGO_ARCHIVO@, nombre_archivo@),
                regex_capturas(PATRON_ASIENTO@, contenido@),
            ) is None,
        },
{
    let n = capturas(PATRON_CODIGO_ARCHIVO, nombre_archivo);
    let c = capturas(PATRON_ASIENTO, contenido);
    componer_asiento(&n, &c)
}

/// The lines `ps` with their codes lent out as text.
pub fn prestar_partidas<'a>(ps: &'a Vec<(String, i64)>) -> (r: Vec<(&'a str, i64)>)
    ensures
        vistas_partidas(r@) == vistas_leidas(ps@),
{
    let mut r: Vec<(&'a str, i64)> = Vec::new();
    let mut k: usize = 0;
    while k < ps.len()
        invariant
            k <= ps.len(),
            r@.len() == k,
            forall|j: int| 0 <= j < k ==> (#[trigger] r@[j]).0@ == ps@[j].0@ && r@[j].1 == ps@[j].1,
        decreases ps.len() - k,
    {
        r.push((ps[k].0.as_str(), ps[k].1));
        k = k + 1;
    }
    assert(vistas_partidas(r@) =~= vistas_leidas(ps@));
    r
}

/// Posts the entry `leido` to the journal of `cuadro`, under its own date
/// and code: see `Cuadro::crear_asiento_con_fecha`.
pub fn asentar_leido(cuadro: &mut Cuadro, leido: &AsientoLeido) -> (r: Result<(), LibroDiarioError>)
    requires
        old(cuadro).wf(),
    ensures
        final(cuadro).wf(),
        final(cuadro)@.cuentas == old(cuadro)@.cuentas,
        ({
            let a = asiento_de_partidas(
                old(cuadro)@.cuentas,
                leido@.concepto,
                leido@.fecha,
                leido@.codigo,
                leido@.debe,
                leido@.haber,
            );
            if a.cuadra() {
                r is Ok && final(cuadro)@.libro_diario == diario_con_asiento(
                    old(cuadro)@.libro_diario,
                    a,
                )
            } else {
                r == Err::<(), LibroDiarioError>(LibroDiarioError::AsientoDesequilibrado)
                    && final(cuadro)@.libro_diario == old(cuadro)@.libro_diario
            }
        }),
{
    let debe = prestar_partidas(&leido.debe);
    let haber = prestar_partidas(&leido.haber);
    cuadro.crear_asiento_con_fecha(
        leido.concepto.as_str(),
        leido.fecha,
        debe,
        haber,
        leido.codigo.as_str(),
    )
}

/// Reads the entry of a file and posts it to the journal of `cuadro`. Gives
/// `None`, and changes nothing, where the file holds no entry.
pub fn leer_asientos(nombre_archivo: &str, contenido: &str, cuadro: &mut Cuadro) -> (r: Option<
    Result<(), LibroDiarioError>,
>)
    requires
        old(cuadro).wf(),
    ensures
        final(cuadro).wf(),
        final(cuadro)@.cuentas == old(cuadro)@.cuentas,
        match asiento_de_capturas(
            regex_capturas(PATRON_CODIGO_ARCHIVO@, nombre_archivo@),
            regex_capturas(PATRON_ASIENTO@, contenido@),
        ) {
            Some(leido) => {
                let a = asiento_de_partidas(
                    old(cuadro)@.cuentas,
                    leido.concepto,
                    leido.fecha,
                    leido.codigo,
                    leido.debe,
                    leido.haber,
                );
                if a.cuadra() {
                    r matches Some(Ok(_)) && final(cuadro)@.libro_diario == diario_con_asiento(
                        old(cuadro)@.libro_diario,
                        a,
                    )
                } else {
                    r == Some(
                        Err::<(), LibroDiarioError>(LibroDiarioError::AsientoDesequilibrado),
                    ) && final(cuadro)@.libro_diario == old(cuadro)@.libro_diario
                }
            },
            None => r is None && final(cuadro)@ == old(cuadro)@,
        },
{
    match leer_asiento(nombre_archivo, contenido) {
        Some(leido) => Some(asentar_leido(cuadro, &leido)),
        None => None,
    }
}

/// The part of the opening balance that a line belongs to.
#[derive(Debug, Clone, Copy, PartialEq, Eq, Structural)]
pub enum Seccion {
    Activo,
    Pasivo,
    Patrimonio,
}

/// The part of the opening balance that the heading `linea` opens, if
/// `linea` is a heading.
pub open spec fn seccion_de_linea(linea: Seq<char>) -> Option<Seccion> {
    if linea == "ACTIVO"@ || linea == "ACTIVO CORRIENTE"@ || linea == "ACTIVO NO CORRIENTE"@ {
        Some(Seccion::Activo)
    } else if linea == "PASIVO"@ || linea == "PASIVO CORRIENTE"@ || linea
        == "PASIVO NO CORRIENTE"@ {
        Some(Seccion::Pasivo)
    } else if linea == "PATRIMONIO NETO"@ {
        Some(Seccion::Patrimonio)
    } else {
        None
    }
}

/// Tells which part of the opening balance a heading opens.
pub fn leer_seccion(linea: &str) -> (r: Option<Seccion>)
    ensures
        r == seccion_de_linea(linea@),
{
    if mismo_texto(linea, "ACTIVO") || mismo_texto(linea, "ACTIVO CORRIENTE") || mismo_texto(
        linea,
        "ACTIVO NO CORRIENTE",
    ) {
        Some(Seccion::Activo)
    } else if mismo_texto(linea, "PASIVO") || mismo_texto(linea, "PASIVO CORRIENTE")
        || mismo_texto(linea, "PASIVO NO CORRIENTE") {
        Some(Seccion::Pasivo)
    } else if mismo_texto(linea, "PATRIMONIO NETO") {
        Some(Seccion::Patrimonio)
    } else {
        None
    }
}

/// How far the reading of an opening balance has come: the part that the
/// next line belongs to, the lines taken for each side of the opening
/// entry, and whether an amount could not be read.
pub struct BalanceV {
    pub seccion: Seccion,
    pub debe: Seq<(Seq<char>, i64)>,
    pub haber: Seq<(Seq<char>, i64)>,
    pub ilegible: bool,
}

/// The reading after one more line. A heading changes the part. Any other
/// line with two fields or more gives a code and an amount: to the debit
/// side under the assets, to the credit side under any other part. Where
/// its second field writes no amount, the balance cannot be read. A line
/// with fewer fields is passed over.
pub open spec fn balance_tras_linea(b: BalanceV, linea: Seq<char>) -> BalanceV {
    if b.ilegible {
        b
    } else {
        match seccion_de_linea(linea) {
            Some(seccion) => BalanceV { seccion, ..b },
            None => {
                let cs = campos(linea);
                if cs.len() >= 2 {
                    match importe_leido(cs[1]) {
                        Some(importe) => if b.seccion == Seccion::Activo {
                            BalanceV { debe: b.debe.push((cs[0], importe)), ..b }
                        } else {
                            BalanceV { haber: b.haber.push((cs[0], importe)), ..b }
                        },
                        None => BalanceV { ilegible: true, ..b },
                    }
                } else {
                    b
                }
            },
        }
    }
}

/// The reading after the lines `lineas`, starting under the assets with
/// nothing taken.
pub open spec fn balance_tras_lineas(lineas: Seq<Seq<char>>) -> BalanceV
    decreases lineas.len(),
{
    if lineas.len() == 0 {
        BalanceV {
            seccion: Seccion::Activo,
            debe: Seq::empty(),
            haber: Seq::empty(),
            ilegible: false,
        }
    } else {
        balance_tras_linea(balance_tras_lineas(lineas.drop_last()), lineas.last())
    }
}

/// Once an amount could not be read, later lines change nothing.
pub proof fn lema_balance_ilegible(lineas: Seq<Seq<char>>, k: int)
    requires
        0 <= k <= lineas.len(),
        balance_tras_lineas(lineas.take(k)).ilegible,
    ensures
        balance_tras_lineas(lineas).ilegible,
    decreases lineas.len() - k,
{
    if k < lineas.len() {
        assert(lineas.take(k + 1).drop_last() =~= lineas.take(k));
        lema_balance_ilegible(lineas, k + 1);
    } else {
        assert(lineas.take(k) =~= lineas);
    }
}

/// The two sides of the opening entry, as the opening balance gives them.
#[derive(Debug, PartialEq)]
pub struct BalanceLeido {
    pub debe: Vec<(String, i64)>,
    pub haber: Vec<(String, i64)>,
}

/// Reads an opening balance: headings that open its parts and lines of
/// `<code> <amount>`. Gives the lines of the assets for the debit side of
/// the opening entry and all others for its credit side, or `None` where an
/// amount cannot be read.
pub fn leer_balance_inicial(texto: &str) -> (r: Option<BalanceLeido>)
    ensures
        ({
            let b = balance_tras_lineas(partes(texto@, '\n'));
            match r {
                Some(leido) => !b.ilegible && vistas_leidas(leido.debe@) == b.debe && vistas_leidas(
                    leido.haber@,
                ) == b.haber,
                None => b.ilegible,
            }
        }),
{
    let lineas = partir(texto, '\n');
    let mut debe: Vec<(String, i64)> = Vec::new();
    let mut haber: Vec<(String, i64)> = Vec::new();
    let mut seccion = Seccion::Activo;
    let mut k: usize = 0;
    let ghost todas = vistas_textos(lineas@);
    proof {
        assert(todas.take(0) =~= Seq::<Seq<char>>::empty());
        assert(vistas_leidas(debe@) =~= Seq::empty());
        assert(vistas_leidas(haber@) =~= Seq::empty());
    }
    while k < lineas.len()
        invariant
            k <= lineas.len(),
            todas == vistas_textos(lineas@),
            todas == partes(texto@, '\n'),
            balance_tras_lineas(todas.take(k as int)) == (BalanceV {
                seccion,
                debe: vistas_leidas(debe@),
                haber: vistas_leidas(haber@),
                ilegible: false,
            }),
        decreases lineas.len() - k,
    {
        proof {
            assert(todas.take(k + 1).drop_last() =~= todas.take(k as int));
            assert(todas.take(k + 1).last() == lineas@[k as int]@);
        }
        let linea = lineas[k];
        match leer_seccion(linea) {
            Some(s) => {
                seccion = s;
            },
            None => {
                let cs = separar_campos(linea);
                if cs.len() >= 2 {
                    assert(vistas_textos(cs@)[0] == cs@[0]@);
                    assert(vistas_textos(cs@)[1] == cs@[1]@);
                    match parsear_importe(cs[1]) {
                        Some(importe) => {
                            let ghost debe_antes = vistas_leidas(debe@);
                            let ghost haber_antes = vistas_leidas(haber@);
                            let codigo = cs[0].to_owned();
                            match seccion {
                                Seccion::Activo => {
                                    debe.push((codigo, importe));
                                    assert(vistas_leidas(debe@) =~= debe_antes.push(
                                        (cs@[0]@, importe),
                                    ));
                                },
                                _ => {
                                    haber.push((codigo, importe));
                                    assert(vistas_leidas(haber@) =~= haber_antes.push(
                                        (cs@[0]@, importe),
                                    ));
                                },
                            }
                        },
                        None => {
                            proof {
                                lema_balance_ilegible(todas, k + 1);
                            }
                            return None;
                        },
                    }
                }
            },
        }
        k = k + 1;
    }
    assert(todas.take(k as int) =~= todas);
    Some(BalanceLeido { debe, haber })
}

/// The concept of the opening entry.
pub const CONCEPTO_APERTURA: &'static str = "Asiento de apertura";

/// Posts the opening entry that `balance` gives to the journal of
/// `cuadro`, dated today on the local clock, under the code of the first
/// entry made today in universal time.
pub fn asentar_apertura(cuadro: &mut Cuadro, balance: &BalanceLeido) -> (r: Result<
    (),
    LibroDiarioError,
>)
    requires
        old(cuadro).wf(),
    ensures
        final(cuadro).wf(),
        final(cuadro)@.cuentas == old(cuadro)@.cuentas,
        exists|local: Fecha, universal: Fecha|
            {
                let a = #[trigger] asiento_de_partidas(
                    old(cuadro)@.cuentas,
                    CONCEPTO_APERTURA@,
                    local,
                    codigo_de_fecha(universal, 0),
                    vistas_leidas(balance.debe@),
                    vistas_leidas(balance.haber@),
                );
                &&& fecha_valida(local)
                &&& fecha_valida(universal)
                &&& if a.cuadra() {
                    r is Ok && final(cuadro)@.libro_diario == diario_con_asiento(
                        old(cuadro)@.libro_diario,
                        a,
                    )
                } else {
                    r == Err::<(), LibroDiarioError>(LibroDiarioError::AsientoDesequilibrado)
                        && final(cuadro)@.libro_diario == old(cuadro)@.libro_diario
                }
            },
{
    let universal = hoy_utc();
    let codigo = generar_codigo_en(universal, 0);
    let local = hoy_local();
    let debe = prestar_partidas(&balance.debe);
    let haber = prestar_partidas(&balance.haber);
    let ghost a = asiento_de_partidas(
        cuadro@.cuentas,
        CONCEPTO_APERTURA@,
        local,
        codigo_de_fecha(universal, 0),
        vistas_leidas(balance.debe@),
        vistas_leidas(balance.haber@),
    );
    cuadro.crear_asiento_con_fecha(CONCEPTO_APERTURA, local, debe, haber, codigo.as_str())
}

} // verus!
