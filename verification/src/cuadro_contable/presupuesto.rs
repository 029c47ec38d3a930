//! Budgets: what is expected to be spent or earned on each account over a
//! range of dates.

use vstd::prelude::*;
use vstd::string::*;
use super::cuenta::CuentaError;
use super::partidas::hay_cuenta_de_nombre;
use super::Cuadro;
use crate::fecha::{
    chrono_dias_entre, dia_anterior, dias_del_mes, dias_entre, fecha_anterior, fecha_mas_meses,
    fecha_valida, hoy_local, mas_meses, menos_dias, Fecha, ANIO_MAX,
};
use crate::texto::mismo_texto;

verus! {

/// The error when no range of dates can be made: its end comes before its
/// start, or one of the two is no date that chrono can reckon with.
#[derive(Debug, PartialEq)]
pub struct RangoError;

/// The mathematical content of a range of dates: its two ends and the
/// number of days from the first to the last.
pub struct RangoV {
    pub inicio: Fecha,
    pub fin: Fecha,
    pub dias: int,
}

/// The dates that a budget covers, both ends included.
#[derive(Debug, PartialEq)]
pub struct RangoFechas {
    inicio: Fecha,
    fin: Fecha,
    dias: i64,
}

impl View for RangoFechas {
    type V = RangoV;

    closed spec fn view(&self) -> RangoV {
        RangoV { inicio: self.inicio, fin: self.fin, dias: self.dias as int }
    }
}

/// The start of a range for which none is given: the first day of the month
/// after `hoy`.
pub open spec fn inicio_por_defecto(hoy: Fecha) -> Option<Fecha> {
    match fecha_mas_meses(hoy, 1) {
        Some(m) => Some(Fecha { dia: 1, ..m }),
        None => None,
    }
}

/// The end of a range for which none is given: the last day of the month
/// after `hoy`, which is the day before the first of the month after that.
pub open spec fn fin_por_defecto(hoy: Fecha) -> Option<Fecha> {
    match fecha_mas_meses(hoy, 2) {
        Some(m) => dia_anterior(Fecha { dia: 1, ..m }),
        None => None,
    }
}

/// The two ends of the range from `fecha_inicio` to `fecha_fin`, each
/// replaced by its default on the day `hoy` where it is not given.
pub open spec fn extremos_de(hoy: Fecha, fecha_inicio: Option<Fecha>, fecha_fin: Option<Fecha>) -> (
    Option<Fecha>,
    Option<Fecha>,
) {
    (
        match fecha_inicio {
            Some(d) => Some(d),
            None => inicio_por_defecto(hoy),
        },
        match fecha_fin {
            Some(d) => Some(d),
            None => fin_por_defecto(hoy),
        },
    )
}

/// Whether there is a range from `fecha_inicio` to `fecha_fin` on the day
/// `hoy`: both ends are dates, and the end does not come before the start.
pub open spec fn rango_posible(hoy: Fecha, fecha_inicio: Option<Fecha>, fecha_fin: Option<Fecha>) -> bool {
    match extremos_de(hoy, fecha_inicio, fecha_fin) {
        (Some(i), Some(f)) => fecha_valida(i) && fecha_valida(f) && !fecha_anterior(f, i),
        _ => false,
    }
}

/// On any day before the last year that chrono's dates reach there is a
/// range by default: from the first to the last day of the month after.
pub proof fn lema_rango_por_defecto(hoy: Fecha)
    requires
        fecha_valida(hoy),
        hoy.anio < ANIO_MAX,
    ensures
        rango_posible(hoy, None, None),
        inicio_por_defecto(hoy) matches Some(i) && fin_por_defecto(hoy) matches Some(f) && i.dia
            == 1 && f.anio == i.anio && f.mes == i.mes && f.dia == dias_del_mes(
            i.anio as int,
            i.mes as int,
        ),
        hoy.mes < 12 ==> inicio_por_defecto(hoy) == Some(
            Fecha { anio: hoy.anio, mes: (hoy.mes + 1) as u32, dia: 1 },
        ),
        hoy.mes == 12 ==> inicio_por_defecto(hoy) == Some(
            Fecha { anio: (hoy.anio + 1) as i32, mes: 1, dia: 1 },
        ),
{
    let t = hoy.anio * 12 + (hoy.mes - 1);
    assert(t / 12 == hoy.anio && t % 12 == hoy.mes - 1);
    if hoy.mes < 12 {
        assert((t + 1) / 12 == hoy.anio && (t + 1) % 12 == hoy.mes);
    } else {
        assert((t + 1) / 12 == hoy.anio + 1 && (t + 1) % 12 == 0);
    }
    if hoy.mes < 11 {
        assert((t + 2) / 12 == hoy.anio && (t + 2) % 12 == hoy.mes + 1);
    } else {
        assert((t + 2) / 12 == hoy.anio + 1 && (t + 2) % 12 == hoy.mes - 11);
    }
}

/// The range from `inicio` to `fin`, which are `dias` days apart. There is
/// none where the end comes before the start, or where the days between the
/// two could not be counted.
pub open spec fn rango_de_extremos(inicio: Fecha, fin: Fecha, dias: Option<i64>) -> Option<RangoV> {
    if fecha_anterior(fin, inicio) {
        None
    } else {
        match dias {
            Some(d) => Some(RangoV { inicio, fin, dias: d as int }),
            None => None,
        }
    }
}

/// The range from `fecha_inicio` to `fecha_fin`, each replaced by its
/// default on the day `hoy` where it is not given. There is none where a
/// default cannot be reckoned, the end comes before the start, or chrono
/// cannot count the days between the two.
pub open spec fn rango_de(hoy: Fecha, fecha_inicio: Option<Fecha>, fecha_fin: Option<Fecha>) -> Option<
    RangoV,
> {
    match extremos_de(hoy, fecha_inicio, fecha_fin) {
        (Some(i), Some(f)) => rango_de_extremos(i, f, chrono_dias_entre(i, f)),
        _ => None,
    }
}

impl RangoFechas {
    /// The end does not come before the start.
    pub closed spec fn wf(&self) -> bool {
        !fecha_anterior(self.fin, self.inicio)
    }

    /// The range from `inicio` to `fin`, given the number of days from the
    /// one to the other, if it could be counted: see `rango_de_extremos`.
    pub fn de_extremos(inicio: Fecha, fin: Fecha, dias: Option<i64>) -> (r: Result<
        RangoFechas,
        RangoError,
    >)
        ensures
            match rango_de_extremos(inicio, fin, dias) {
                Some(v) => r matches Ok(rango) && rango@ == v && rango.wf(),
                None => r is Err,
            },
    {
        if fin.anterior_a(&inicio) {
            return Err(RangoError);
        }
        match dias {
            Some(d) => Ok(RangoFechas { inicio, fin, dias: d }),
            None => Err(RangoError),
        }
    }

    /// The range from `fecha_inicio` to `fecha_fin`, as it is made on the
    /// day `hoy`: see `rango_de`.
    pub fn create_en(hoy: Fecha, fecha_inicio: Option<Fecha>, fecha_fin: Option<Fecha>) -> (r: Result<
        RangoFechas,
        RangoError,
    >)
        ensures
            match rango_de(hoy, fecha_inicio, fecha_fin) {
                Some(v) => r matches Ok(rango) && rango@ == v && rango.wf(),
                None => r is Err,
            },
            r is Ok <==> rango_posible(hoy, fecha_inicio, fecha_fin),
            r matches Ok(rango) ==> rango@.dias >= 0 && (rango@.dias == 0 <==> rango@.inicio
                == rango@.fin),
    {
        let inicio = match fecha_inicio {
            Some(d) => d,
            None => match mas_meses(hoy, 1) {
                Some(m) => m.primer_dia_del_mes(),
                None => {
                    return Err(RangoError);
                },
            },
        };
        let fin = match fecha_fin {
            Some(d) => d,
            None => match mas_meses(hoy, 2) {
                Some(m) => match menos_dias(m.primer_dia_del_mes(), 1) {
                    Some(f) => f,
                    None => {
                        return Err(RangoError);
                    },
                },
                None => {
                    return Err(RangoError);
                },
            },
        };
        RangoFechas::de_extremos(inicio, fin, dias_entre(inicio, fin))
    }

    /// The range from `fecha_inicio` to `fecha_fin`. Where one is not
    /// given, it is the first or the last day of the month after today's,
    /// by the local clock.
    pub fn create(fecha_inicio: Option<Fecha>, fecha_fin: Option<Fecha>) -> (r: Result<
        RangoFechas,
        RangoError,
    >)
        ensures
            exists|hoy: Fecha|
                fecha_valida(hoy) && (r is Ok <==> rango_posible(hoy, fecha_inicio, fecha_fin))
                    && match #[trigger] rango_de(hoy, fecha_inicio, fecha_fin) {
                    Some(v) => r matches Ok(rango) && rango@ == v && rango.wf(),
                    None => r is Err,
                },
            r matches Ok(rango) ==> rango@.dias >= 0,
    {
        let hoy = hoy_local();
        let r = RangoFechas::create_en(hoy, fecha_inicio, fecha_fin);
        assert((r is Ok <==> rango_posible(hoy, fecha_inicio, fecha_fin)) && match rango_de(
            hoy,
            fecha_inicio,
            fecha_fin,
        ) {
            Some(v) => r matches Ok(rango) && rango@ == v && rango.wf(),
            None => r is Err,
        });
        r
    }

    /// The first day of the range.
    pub fn inicio(&self) -> (r: Fecha)
        ensures
            r == self@.inicio,
    {
        self.inicio
    }

    /// The last day of the range.
    pub fn fin(&self) -> (r: Fecha)
        ensures
            r == self@.fin,
    {
        self.fin
    }

    /// The number of days from the first day of the range to the last.
    pub fn dias(&self) -> (r: i64)
        ensures
            r == self@.dias,
    {
        self.dias
    }
}

/// An amount of a budget, in cents: one for every day of the range, or one
/// for the range as a whole.
#[derive(Debug, Clone, Copy, PartialEq, Eq, Structural)]
pub enum ImportePresupuesto {
    Diario(i64),
    Puntual(i64),
}

/// The mathematical content of an item of a budget.
pub struct ItemV {
    pub concepto: Seq<char>,
    pub cuenta: Seq<char>,
    pub presupuesto: ImportePresupuesto,
}

/// One item of a budget: a concept, the name of the account it falls on,
/// and its amount.
#[derive(Debug, PartialEq)]
pub struct ItemPresupuesto {
    concepto: String,
    cuenta: String,
    presupuesto: ImportePresupuesto,
}

impl View for ItemPresupuesto {
    type V = ItemV;

    closed spec fn view(&self) -> ItemV {
        ItemV { concepto: self.concepto@, cuenta: self.cuenta@, presupuesto: self.presupuesto }
    }
}

/// What an amount comes to over a range whose ends are `dias` days apart:
/// a daily amount counts once for each day, both ends included.
pub open spec fn importe_en_rango(p: ImportePresupuesto, dias: int) -> int {
    match p {
        ImportePresupuesto::Diario(v) => v * (dias + 1),
        ImportePresupuesto::Puntual(v) => v as int,
    }
}

/// What the items `items` that fall on the account `cuenta` come to.
pub open spec fn total_de_cuenta(items: Seq<ItemV>, dias: int, cuenta: Seq<char>) -> int
    decreases items.len(),
{
    if items.len() == 0 {
        0
    } else {
        total_de_cuenta(items.drop_last(), dias, cuenta) + if items.last().cuenta == cuenta {
            importe_en_rango(items.last().presupuesto, dias)
        } else {
            0
        }
    }
}

impl ItemPresupuesto {
    /// An item of `importe` cents a day on the account of name `cuenta`,
    /// which `cuadro` must hold.
    pub fn item_diario(concepto: &str, cuadro: &Cuadro, cuenta: &str, importe: i64) -> (r: Result<
        ItemPresupuesto,
        CuentaError,
    >)
        ensures
            match r {
                Ok(item) => hay_cuenta_de_nombre(cuadro@.cuentas, cuenta@) && item@ == (ItemV {
                    concepto: concepto@,
                    cuenta: cuenta@,
                    presupuesto: ImportePresupuesto::Diario(importe),
                }),
                Err(_) => !hay_cuenta_de_nombre(cuadro@.cuentas, cuenta@),
            },
    {
        if !cuadro.validar_cuenta(cuenta) {
            return Err(CuentaError);
        }
        Ok(
            ItemPresupuesto {
                concepto: concepto.to_owned(),
                cuenta: cuenta.to_owned(),
                presupuesto: ImportePresupuesto::Diario(importe),
            },
        )
    }

    /// An item of `importe` cents, once, on the account of name `cuenta`,
    /// which `cuadro` must hold.
    pub fn item_puntual(concepto: &str, cuadro: &Cuadro, cuenta: &str, importe: i64) -> (r: Result<
        ItemPresupuesto,
        CuentaError,
    >)
        ensures
            match r {
                Ok(item) => hay_cuenta_de_nombre(cuadro@.cuentas, cuenta@) && item@ == (ItemV {
                    concepto: concepto@,
                    cuenta: cuenta@,
                    presupuesto: ImportePresupuesto::Puntual(importe),
                }),
                Err(_) => !hay_cuenta_de_nombre(cuadro@.cuentas, cuenta@),
            },
    {
        if !cuadro.validar_cuenta(cuenta) {
            return Err(CuentaError);
        }
        Ok(
            ItemPresupuesto {
                concepto: concepto.to_owned(),
                cuenta: cuenta.to_owned(),
                presupuesto: ImportePresupuesto::Puntual(importe),
            },
        )
    }

    /// What the item comes to over a range whose ends are `dias` days
    /// apart.
    pub fn importe_total(&self, dias: i64) -> (r: i128)
        ensures
            r == importe_en_rango(self@.presupuesto, dias as int),
    {
        match self.presupuesto {
            ImportePresupuesto::Diario(v) => {
                assert(-0x8000_0000_0000_0000 * 0x8000_0000_0000_0000 <= v * (dias + 1)
                    <= 0x8000_0000_0000_0000 * 0x8000_0000_0000_0000) by (nonlinear_arith)
                    requires
                        -0x8000_0000_0000_0000 <= v <= 0x8000_0000_0000_0000,
                        -0x8000_0000_0000_0000 <= dias + 1 <= 0x8000_0000_0000_0000,
                ;
                (v as i128) * (dias as i128 + 1)
            },
            ImportePresupuesto::Puntual(v) => v as i128,
        }
    }
}

/// Whether a total fits in the 128 bits that hold it.
pub open spec fn cabe_total(total: int) -> bool {
    i128::MIN <= total <= i128::MAX
}

/// Why an item cannot enter a budget.
#[derive(Debug, Clone, Copy, PartialEq, Eq, Structural)]
pub enum PresupuestoError {
    /// The chart holds no account of that name.
    CuentaDesconocida,
    /// With the item the total of its account would leave 128 bits.
    ImporteExcesivo,
}

/// The mathematical content of a budget: its range, its items in the order
/// in which they came, and for each account that has an item the name of
/// the account with what its items come to.
pub struct PresupuestoV {
    pub fechas: RangoV,
    pub items: Seq<ItemV>,
    pub partidas: Seq<(Seq<char>, int)>,
}

/// The total that `partidas` holds for the account `cuenta`, if it holds
/// one.
pub open spec fn partida_de(partidas: Seq<(Seq<char>, int)>, cuenta: Seq<char>) -> Option<int>
    decreases partidas.len(),
{
    if partidas.len() == 0 {
        None
    } else {
        match partida_de(partidas.drop_last(), cuenta) {
            Some(t) => Some(t),
            None => if partidas.last().0 == cuenta {
                Some(partidas.last().1)
            } else {
                None
            },
        }
    }
}

/// `partida_de` finds the first pair under the name, if there is one.
pub proof fn lema_partida_de(partidas: Seq<(Seq<char>, int)>, cuenta: Seq<char>)
    ensures
        match partida_de(partidas, cuenta) {
            Some(t) => exists|i: int|
                0 <= i < partidas.len() && (#[trigger] partidas[i]).0 == cuenta && partidas[i].1
                    == t && forall|k: int| 0 <= k < i ==> (#[trigger] partidas[k]).0 != cuenta,
            None => forall|i: int| 0 <= i < partidas.len() ==> (#[trigger] partidas[i]).0 != cuenta,
        },
    decreases partidas.len(),
{
    if partidas.len() > 0 {
        lema_partida_de(partidas.drop_last(), cuenta);
        assert(forall|k: int| 0 <= k < partidas.len() - 1 ==> partidas.drop_last()[k] == partidas[k]);
        match partida_de(partidas.drop_last(), cuenta) {
            Some(t) => {
                let i = choose|i: int|
                    0 <= i < partidas.drop_last().len() && (#[trigger] partidas.drop_last()[i]).0
                        == cuenta && partidas.drop_last()[i].1 == t && forall|k: int|
                        0 <= k < i ==> (#[trigger] partidas.drop_last()[k]).0 != cuenta;
                assert(partidas[i].0 == cuenta && partidas[i].1 == t);
                assert forall|k: int| 0 <= k < i implies (#[trigger] partidas[k]).0 != cuenta by {
                    assert(partidas.drop_last()[k].0 != cuenta);
                }
            },
            None => {
                if partidas.last().0 == cuenta {
                    let i = partidas.len() - 1;
                    assert(partidas[i].0 == cuenta);
                    assert forall|k: int| 0 <= k < i implies (#[trigger] partidas[k]).0
                        != cuenta by {
                        assert(partidas.drop_last()[k].0 != cuenta);
                    }
                } else {
                    assert forall|k: int| 0 <= k < partidas.len() implies (#[trigger] partidas[k]).0
                        != cuenta by {
                        if k < partidas.len() - 1 {
                            assert(partidas.drop_last()[k].0 != cuenta);
                        }
                    }
                }
            },
        }
    }
}

/// A forecast of income and expense over a range of dates, item by item and
/// added up by account, against the accounts of a chart.
#[derive(Debug, PartialEq)]
pub struct Presupuesto<'a> {
    fechas: RangoFechas,
    items: Vec<ItemPresupuesto>,
    partidas: Vec<(String, i128)>,
    cuadro: &'a Cuadro,
}

/// The contents of a list of items.
pub open spec fn vistas_items(items: Seq<ItemPresupuesto>) -> Seq<ItemV> {
    items.map_values(|i: ItemPresupuesto| i@)
}

/// The contents of a list of totals by account.
pub open spec fn vistas_totales(ps: Seq<(String, i128)>) -> Seq<(Seq<char>, int)> {
    ps.map_values(|p: (String, i128)| (p.0@, p.1 as int))
}

impl<'a> View for Presupuesto<'a> {
    type V = PresupuestoV;

    closed spec fn view(&self) -> PresupuestoV {
        PresupuestoV {
            fechas: self.fechas@,
            items: vistas_items(self.items@),
            partidas: vistas_totales(self.partidas@),
        }
    }
}

/// The totals by account agree with the items: no account has two totals,
/// each total is what the items of its account come to, every item's
/// account has a total, and only the accounts of the items have one.
pub open spec fn partidas_al_dia(v: PresupuestoV) -> bool {
    &&& forall|i: int, j: int|
        0 <= i < j < v.partidas.len() ==> (#[trigger] v.partidas[i]).0 != (
        #[trigger] v.partidas[j]).0
    &&& forall|i: int|
        0 <= i < v.partidas.len() ==> (#[trigger] v.partidas[i]).1 == total_de_cuenta(
            v.items,
            v.fechas.dias,
            v.partidas[i].0,
        )
    &&& forall|k: int|
        0 <= k < v.items.len() ==> partida_de(v.partidas, (#[trigger] v.items[k]).cuenta) is Some
    &&& forall|i: int|
        0 <= i < v.partidas.len() ==> hay_item_de(v.items, (#[trigger] v.partidas[i]).0)
}

/// Whether one of the items `items` falls on the account `cuenta`.
pub open spec fn hay_item_de(items: Seq<ItemV>, cuenta: Seq<char>) -> bool {
    exists|k: int| 0 <= k < items.len() && (#[trigger] items[k]).cuenta == cuenta
}

impl<'a> Presupuesto<'a> {
    /// The range is well formed and the totals agree with the items.
    pub closed spec fn wf(&self) -> bool {
        &&& self.fechas.wf()
        &&& partidas_al_dia(self@)
    }

    /// The chart against which the budget is made.
    pub closed spec fn cuadro_spec(&self) -> Cuadro {
        *self.cuadro
    }

    /// In a well-formed budget the totals agree with the items.
    pub proof fn lema_partidas_al_dia(&self)
        requires
            self.wf(),
        ensures
            partidas_al_dia(self@),
    {
    }

    /// An empty budget over the range from `inicio` to `fin`, made on the
    /// day `hoy`, against the accounts of `cuadro`.
    pub fn new_en(hoy: Fecha, inicio: Option<Fecha>, fin: Option<Fecha>, cuadro: &'a Cuadro) -> (r:
        Result<Presupuesto<'a>, RangoError>)
        ensures
            match rango_de(hoy, inicio, fin) {
                Some(v) => r matches Ok(p) && p.wf() && p.cuadro_spec() == *cuadro && p@ == (
                PresupuestoV { fechas: v, items: Seq::empty(), partidas: Seq::empty() }),
                None => r is Err,
            },
    {
        match RangoFechas::create_en(hoy, inicio, fin) {
            Ok(fechas) => {
                let p = Presupuesto { fechas, items: Vec::new(), partidas: Vec::new(), cuadro };
                assert(p@.items =~= Seq::empty());
                assert(p@.partidas =~= Seq::empty());
                Ok(p)
            },
            Err(e) => Err(e),
        }
    }

    /// An empty budget over the range from `inicio` to `fin`, against the
    /// accounts of `cuadro`. Where an end is not given, it is the first or
    /// the last day of the month after today's, by the local clock.
    pub fn new(inicio: Option<Fecha>, fin: Option<Fecha>, cuadro: &'a Cuadro) -> (r: Result<
        Presupuesto<'a>,
        RangoError,
    >)
        ensures
            exists|hoy: Fecha|
                fecha_valida(hoy) && match #[trigger] rango_de(hoy, inicio, fin) {
                    Some(v) => r matches Ok(p) && p.wf() && p.cuadro_spec() == *cuadro && p@ == (
                    PresupuestoV { fechas: v, items: Seq::empty(), partidas: Seq::empty() }),
                    None => r is Err,
                },
    {
        let hoy = hoy_local();
        let r = Presupuesto::new_en(hoy, inicio, fin, cuadro);
        assert(match rango_de(hoy, inicio, fin) {
            Some(v) => r matches Ok(p) && p.wf() && p.cuadro_spec() == *cuadro && p@ == (
            PresupuestoV { fechas: v, items: Seq::empty(), partidas: Seq::empty() }),
            None => r is Err,
        });
        r
    }

    /// The range of dates of the budget.
    pub fn fechas(&self) -> (r: &RangoFechas)
        ensures
            r@ == self@.fechas,
    {
        &self.fechas
    }

    /// The items of the budget, in the order in which they came.
    pub fn items(&self) -> (r: &Vec<ItemPresupuesto>)
        ensures
            vistas_items(r@) == self@.items,
    {
        &self.items
    }

    /// The position of the total of the account `cuenta`, if it has one.
    fn indice_partida(&self, cuenta: &str) -> (r: Option<usize>)
        ensures
            match r {
                Some(i) => i < self.partidas@.len() && self@.partidas[i as int].0 == cuenta@
                    && forall|k: int| 0 <= k < i ==> (#[trigger] self@.partidas[k]).0 != cuenta@,
                None => forall|k: int|
                    0 <= k < self@.partidas.len() ==> (#[trigger] self@.partidas[k]).0 != cuenta@,
            },
    {
        let mut i: usize = 0;
        while i < self.partidas.len()
            invariant
                i <= self.partidas.len(),
                forall|k: int| 0 <= k < i ==> (#[trigger] self@.partidas[k]).0 != cuenta@,
            decreases self.partidas.len() - i,
        {
            assert(self@.partidas[i as int].0 == self.partidas@[i as int].0@);
            if mismo_texto(self.partidas[i].0.as_str(), cuenta) {
                return Some(i);
            }
            i = i + 1;
        }
        None
    }

    /// What the items of the account `cuenta` come to, if it has any.
    pub fn partida(&self, cuenta: &str) -> (r: Option<i128>)
        requires
            self.wf(),
        ensures
            match r {
                Some(t) => partida_de(self@.partidas, cuenta@) == Some(t as int) && t
                    == total_de_cuenta(self@.items, self@.fechas.dias, cuenta@),
                None => partida_de(self@.partidas, cuenta@) is None,
            },
    {
        proof {
            lema_partida_de(self@.partidas, cuenta@);
        }
        match self.indice_partida(cuenta) {
            Some(i) => {
                assert(self@.partidas[i as int].1 == self.partidas@[i as int].1);
                Some(self.partidas[i].1)
            },
            None => None,
        }
    }

    /// Adds what `item` comes to over the range to the total of its
    /// account, opening the total where the account had none. Leaves the
    /// totals as they were, and says so, where the sum would leave 128
    /// bits.
    fn actualizar_partida(&mut self, item: &ItemPresupuesto) -> (hecho: bool)
        requires
            old(self).wf(),
        ensures
            final(self).fechas == old(self).fechas,
            final(self).items == old(self).items,
            final(self).cuadro == old(self).cuadro,
            !hecho ==> final(self).partidas == old(self).partidas,
            hecho ==> partidas_al_dia(
                PresupuestoV { items: old(self)@.items.push(item@), ..final(self)@ },
            ),
            hecho == cabe_total(
                total_de_cuenta(
                    old(self)@.items.push(item@),
                    old(self)@.fechas.dias,
                    item@.cuenta,
                ),
            ),
    {
        let importe = item.importe_total(self.fechas.dias());
        let ghost antes = self@;
        let ghost despues_items = antes.items.push(item@);
        proof {
            assert(despues_items.drop_last() =~= antes.items);
            lema_partida_de(antes.partidas, item@.cuenta);
        }
        match self.indice_partida(item.cuenta.as_str()) {
            Some(i) => {
                assert(antes.partidas[i as int].1 == self.partidas@[i as int].1);
                match self.partidas[i].1.checked_add(importe) {
                    Some(total) => {
                        self.partidas[i].1 = total;
                        proof {
                            let v = PresupuestoV { items: despues_items, ..self@ };
                            assert(v.partidas =~= antes.partidas.update(
                                i as int,
                                (item@.cuenta, total as int),
                            ));
                            assert forall|k: int| 0 <= k < v.items.len() implies partida_de(
                                v.partidas,
                                (#[trigger] v.items[k]).cuenta,
                            ) is Some by {
                                lema_partida_de(v.partidas, v.items[k].cuenta);
                                if k < antes.items.len() {
                                    lema_partida_de(antes.partidas, antes.items[k].cuenta);
                                    let j = choose|j: int|
                                        0 <= j < antes.partidas.len() && (
                                        #[trigger] antes.partidas[j]).0 == antes.items[k].cuenta;
                                    assert(v.partidas[j].0 == antes.items[k].cuenta);
                                } else {
                                    assert(v.partidas[i as int].0 == item@.cuenta);
                                }
                            }
                            assert forall|j: int| 0 <= j < v.partidas.len() implies hay_item_de(
                                v.items,
                                (#[trigger] v.partidas[j]).0,
                            ) by {
                                assert(hay_item_de(antes.items, antes.partidas[j].0));
                                let k = choose|k: int|
                                    0 <= k < antes.items.len() && (#[trigger] antes.items[k]).cuenta
                                        == antes.partidas[j].0;
                                assert(v.items[k].cuenta == v.partidas[j].0);
                            }
                        }
                        true
                    },
                    None => false,
                }
            },
            None => {
                self.partidas.push((item.cuenta.clone(), importe));
                proof {
                    let v = PresupuestoV { items: despues_items, ..self@ };
                    assert(v.partidas =~= antes.partidas.push((item@.cuenta, importe as int)));
                    lema_sin_items(antes, item@.cuenta);
                    assert forall|k: int| 0 <= k < v.items.len() implies partida_de(
                        v.partidas,
                        (#[trigger] v.items[k]).cuenta,
                    ) is Some by {
                        lema_partida_de(v.partidas, v.items[k].cuenta);
                        if k < antes.items.len() {
                            lema_partida_de(antes.partidas, antes.items[k].cuenta);
                            let j = choose|j: int|
                                0 <= j < antes.partidas.len() && (#[trigger] antes.partidas[j]).0
                                    == antes.items[k].cuenta;
                            assert(v.partidas[j].0 == antes.items[k].cuenta);
                        } else {
                            assert(v.partidas[antes.partidas.len() as int].0 == item@.cuenta);
                        }
                    }
                    assert forall|j: int| 0 <= j < v.partidas.len() implies hay_item_de(
                        v.items,
                        (#[trigger] v.partidas[j]).0,
                    ) by {
                        if j < antes.partidas.len() {
                            assert(hay_item_de(antes.items, antes.partidas[j].0));
                            let k = choose|k: int|
                                0 <= k < antes.items.len() && (#[trigger] antes.items[k]).cuenta
                                    == antes.partidas[j].0;
                            assert(v.items[k].cuenta == v.partidas[j].0);
                        } else {
                            assert(v.items[antes.items.len() as int].cuenta == v.partidas[j].0);
                        }
                    }
                }
                true
            },
        }
    }

    /// Enters into the budget an expense of `importe` cents a day on the
    /// account of name `cuenta`. The budget stays as it was where the chart
    /// holds no such account, or where the total of the account would
    /// leave 128 bits.
    pub fn insertar_gasto_diario(&mut self, concepto: &str, cuenta: &str, importe: i64) -> (r: Result<
        (),
        PresupuestoError,
    >)
        requires
            old(self).wf(),
        ensures
            final(self).wf(),
            final(self).cuadro_spec() == old(self).cuadro_spec(),
            final(self)@.fechas == old(self)@.fechas,
            ({
                let item = ItemV {
                    concepto: concepto@,
                    cuenta: cuenta@,
                    presupuesto: ImportePresupuesto::Diario(importe),
                };
                let total = total_de_cuenta(
                    old(self)@.items.push(item),
                    old(self)@.fechas.dias,
                    cuenta@,
                );
                if !hay_cuenta_de_nombre(old(self).cuadro_spec()@.cuentas, cuenta@) {
                    r == Err::<(), PresupuestoError>(PresupuestoError::CuentaDesconocida)
                        && final(self)@ == old(self)@
                } else if !cabe_total(total) {
                    r == Err::<(), PresupuestoError>(PresupuestoError::ImporteExcesivo)
                        && final(self)@ == old(self)@
                } else {
                    r is Ok && final(self)@.items == old(self)@.items.push(item) && partida_de(
                        final(self)@.partidas,
                        cuenta@,
                    ) == Some(total)
                }
            }),
    {
        let gasto = match ItemPresupuesto::item_diario(concepto, self.cuadro, cuenta, importe) {
            Ok(g) => g,
            Err(_) => {
                return Err(PresupuestoError::CuentaDesconocida);
            },
        };
        if !self.actualizar_partida(&gasto) {
            return Err(PresupuestoError::ImporteExcesivo);
        }
        let ghost antes = self@.items;
        self.items.push(gasto);
        proof {
            assert(self@.items =~= antes.push(gasto@));
            let v = self@;
            lema_partida_de(v.partidas, cuenta@);
            assert(v.items[v.items.len() - 1].cuenta == cuenta@);
            assert(partida_de(v.partidas, cuenta@) is Some);
        }
        Ok(())
    }
}

/// An account without a total has no items.
proof fn lema_sin_items(v: PresupuestoV, cuenta: Seq<char>)
    requires
        partidas_al_dia(v),
        partida_de(v.partidas, cuenta) is None,
    ensures
        total_de_cuenta(v.items, v.fechas.dias, cuenta) == 0,
{
    lema_total_sin_items(v.items, v.fechas.dias, cuenta);
}

/// Items on other accounts add nothing to the total of an account.
proof fn lema_total_sin_items(items: Seq<ItemV>, dias: int, cuenta: Seq<char>)
    requires
        forall|k: int| 0 <= k < items.len() ==> (#[trigger] items[k]).cuenta != cuenta,
    ensures
        total_de_cuenta(items, dias, cuenta) == 0,
    decreases items.len(),
{
    if items.len() > 0 {
        assert(forall|k: int| 0 <= k < items.len() - 1 ==> items.drop_last()[k] == items[k]);
        lema_total_sin_items(items.drop_last(), dias, cuenta);
        assert(items.last() == items[items.len() - 1]);
    }
}

} // verus!
