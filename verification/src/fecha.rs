//! Calendar dates. The clock and the parsing of dates are chrono's; the
//! rest works on year, month and day as plain numbers.

use vstd::prelude::*;
use vstd::string::*;
use chrono::Datelike;
use crate::texto::{cifras_con_ceros, texto_con_ceros};

verus! {

/// A date of the proleptic Gregorian calendar, as a year, a month from 1 and
/// a day of the month from 1. Nothing keeps the three in range: see
/// `fecha_valida`.
#[derive(Debug, Clone, Copy, PartialEq, Eq, Structural)]
pub struct Fecha {
    pub anio: i32,
    pub mes: u32,
    pub dia: u32,
}

/// The first year that chrono's dates reach.
pub const ANIO_MIN: i32 = -262143;

/// The last year that chrono's dates reach.
pub const ANIO_MAX: i32 = 262142;

/// Whether `anio` has a 29th of February.
pub open spec fn bisiesto(anio: int) -> bool {
    anio % 4 == 0 && (anio % 100 != 0 || anio % 400 == 0)
}

/// The number of days of month `mes` of year `anio`.
pub open spec fn dias_del_mes(anio: int, mes: int) -> int {
    if mes == 2 {
        if bisiesto(anio) {
            29
        } else {
            28
        }
    } else if mes == 4 || mes == 6 || mes == 9 || mes == 11 {
        30
    } else {
        31
    }
}

/// Whether the calendar has the day that `f` names, in a year that chrono's
/// dates reach.
pub open spec fn fecha_valida(f: Fecha) -> bool {
    &&& ANIO_MIN <= f.anio <= ANIO_MAX
    &&& 1 <= f.mes <= 12
    &&& 1 <= f.dia <= dias_del_mes(f.anio as int, f.mes as int)
}

/// Whether `a` comes before `b`.
pub open spec fn fecha_anterior(a: Fecha, b: Fecha) -> bool {
    a.anio < b.anio || (a.anio == b.anio && (a.mes < b.mes || (a.mes == b.mes && a.dia < b.dia)))
}

/// A year as chrono writes it for `%Y`: four digits from 0 to 9999, a sign
/// and at least four digits otherwise.
pub open spec fn anio_en_texto(anio: int) -> Seq<char> {
    if 0 <= anio <= 9999 {
        cifras_con_ceros(anio as nat, 4)
    } else if anio < 0 {
        seq!['-'] + cifras_con_ceros((-anio) as nat, 4)
    } else {
        seq!['+'] + cifras_con_ceros(anio as nat, 4)
    }
}

/// A date written as year, month and day with `separador` between them,
/// month and day in two digits.
pub open spec fn fecha_en_texto(f: Fecha, separador: Seq<char>) -> Seq<char> {
    anio_en_texto(f.anio as int) + separador + cifras_con_ceros(f.mes as nat, 2) + separador
        + cifras_con_ceros(f.dia as nat, 2)
}

/// The date that `chrono::NaiveDate::parse_from_str` reads in `texto` under
/// the format `formato`, or `None` where it reports an error.
pub uninterp spec fn chrono_fecha_de_texto(texto: Seq<char>, formato: Seq<char>) -> Option<Fecha>;

/// The date `meses` months after `f`: the same day of the month, or the
/// last day of that month where it is shorter. `None` where `f` is no date
/// or the month falls after the last year that chrono's dates reach.
pub open spec fn fecha_mas_meses(f: Fecha, meses: u32) -> Option<Fecha> {
    let total = f.anio * 12 + (f.mes - 1) + meses;
    let anio = total / 12;
    let mes = total % 12 + 1;
    let tope = dias_del_mes(anio, mes);
    let dia = if f.dia > tope {
        tope
    } else {
        f.dia as int
    };
    if fecha_valida(f) && anio <= ANIO_MAX {
        Some(Fecha { anio: anio as i32, mes: mes as u32, dia: dia as u32 })
    } else {
        None
    }
}

/// The day before `f`. `None` where `f` is no date or is the first day
/// that chrono's dates reach.
pub open spec fn dia_anterior(f: Fecha) -> Option<Fecha> {
    if !fecha_valida(f) {
        None
    } else if f.dia > 1 {
        Some(Fecha { dia: (f.dia - 1) as u32, ..f })
    } else if f.mes > 1 {
        Some(
            Fecha {
                anio: f.anio,
                mes: (f.mes - 1) as u32,
                dia: dias_del_mes(f.anio as int, f.mes - 1) as u32,
            },
        )
    } else if f.anio > ANIO_MIN {
        Some(Fecha { anio: (f.anio - 1) as i32, mes: 12, dia: 31 })
    } else {
        None
    }
}

/// The date `dias` days before `f`, as `chrono::NaiveDate::checked_sub_days`
/// gives it. `None` where `chrono::NaiveDate::from_ymd_opt` makes no date
/// of `f`, or the result is out of chrono's range.
pub uninterp spec fn chrono_menos_dias(f: Fecha, dias: u64) -> Option<Fecha>;

/// The number of days from `desde` to `hasta`, negative where `hasta` comes
/// first, as `chrono::NaiveDate::signed_duration_since` and
/// `chrono::TimeDelta::num_days` give it. `None` where
/// `chrono::NaiveDate::from_ymd_opt` makes no date of one of the two.
pub uninterp spec fn chrono_dias_entre(desde: Fecha, hasta: Fecha) -> Option<i64>;

/// Whether the sign of a count of `d` days from `desde` to `hasta` agrees
/// with the order of the two: negative exactly where `hasta` comes first,
/// zero exactly where they are the same day.
pub open spec fn signo_de_dias(desde: Fecha, hasta: Fecha, d: i64) -> bool {
    &&& d < 0 <==> fecha_anterior(hasta, desde)
    &&& d == 0 <==> desde == hasta
}

/// Calls `chrono::NaiveDate::checked_add_months` on the date that
/// `chrono::NaiveDate::from_ymd_opt` makes of `f`. The contract claims that
/// the result is `fecha_mas_meses`: that chrono makes a date of `f` exactly
/// where `f` is one, counts the months through the years, keeps the day of
/// the month or takes the last of a shorter month, and gives nothing past
/// its last year.
#[verifier::external_body]
pub(crate) fn mas_meses(f: Fecha, meses: u32) -> (r: Option<Fecha>)
    ensures
        r == fecha_mas_meses(f, meses),
{
    let d = chrono::NaiveDate::from_ymd_opt(f.anio, f.mes, f.dia)?;
    let e = d.checked_add_months(chrono::Months::new(meses))?;
    Some(Fecha { anio: e.year(), mes: e.month(), dia: e.day() })
}

/// Calls `chrono::NaiveDate::checked_sub_days` on the date that
/// `chrono::NaiveDate::from_ymd_opt` makes of `f`. The contract names the
/// result `chrono_menos_dias` and claims that a date that comes back
/// exists, and that one day before `f` is `dia_anterior(f)`.
#[verifier::external_body]
pub(crate) fn menos_dias(f: Fecha, dias: u64) -> (r: Option<Fecha>)
    ensures
        r == chrono_menos_dias(f, dias),
        r matches Some(g) ==> fecha_valida(g),
        dias == 1 ==> r == dia_anterior(f),
{
    let d = chrono::NaiveDate::from_ymd_opt(f.anio, f.mes, f.dia)?;
    let e = d.checked_sub_days(chrono::Days::new(dias))?;
    Some(Fecha { anio: e.year(), mes: e.month(), dia: e.day() })
}

/// Calls `chrono::NaiveDate::signed_duration_since` on the dates that
/// `chrono::NaiveDate::from_ymd_opt` makes of `hasta` and `desde`, and
/// `chrono::TimeDelta::num_days` on what it returns. The contract names the
/// result `chrono_dias_entre` and claims that there is one exactly where
/// both are dates, that it is negative exactly where `hasta` comes first,
/// and zero exactly where the two are the same day.
#[verifier::external_body]
pub(crate) fn dias_entre(desde: Fecha, hasta: Fecha) -> (r: Option<i64>)
    ensures
        r == chrono_dias_entre(desde, hasta),
        (r is Some) == (fecha_valida(desde) && fecha_valida(hasta)),
        r matches Some(d) ==> signo_de_dias(desde, hasta, d),
{
    let a = chrono::NaiveDate::from_ymd_opt(desde.anio, desde.mes, desde.dia)?;
    let b = chrono::NaiveDate::from_ymd_opt(hasta.anio, hasta.mes, hasta.dia)?;
    Some(b.signed_duration_since(a).num_days())
}

/// Today's date on the local clock: `chrono::offset::Local::now`, then
/// `date_naive`, split into year, month and day. The contract claims only
/// that the date exists; chrono stops the program if the system clock stands
/// before 1970.
#[verifier::external_body]
pub(crate) fn hoy_local() -> (f: Fecha)
    ensures
        fecha_valida(f),
{
    let d = chrono::offset::Local::now().date_naive();
    Fecha { anio: d.year(), mes: d.month(), dia: d.day() }
}

/// Today's date in universal time: `chrono::offset::Utc::now`, then
/// `date_naive`, split into year, month and day. The contract claims only
/// that the date exists; chrono stops the program if the system clock stands
/// before 1970.
#[verifier::external_body]
pub(crate) fn hoy_utc() -> (f: Fecha)
    ensures
        fecha_valida(f),
{
    let d = chrono::offset::Utc::now().date_naive();
    Fecha { anio: d.year(), mes: d.month(), dia: d.day() }
}

/// Calls `chrono::NaiveDate::parse_from_str` and splits the date it returns
/// into year, month and day. The contract names the result
/// `chrono_fecha_de_texto` and claims that a date that was read exists.
#[verifier::external_body]
pub(crate) fn fecha_de_texto(texto: &str, formato: &str) -> (r: Option<Fecha>)
    ensures
        r == chrono_fecha_de_texto(texto@, formato@),
        r matches Some(f) ==> fecha_valida(f),
{
    match chrono::NaiveDate::parse_from_str(texto, formato) {
        Ok(d) => Some(Fecha { anio: d.year(), mes: d.month(), dia: d.day() }),
        Err(_) => None,
    }
}

/// A number and its opposite are multiples of the same numbers.
pub proof fn lema_divisible_opuesto(x: int, d: int)
    requires
        d > 0,
    ensures
        (x % d == 0) == ((-x) % d == 0),
{
    vstd::arithmetic::div_mod::lemma_fundamental_div_mod(x, d);
    vstd::arithmetic::div_mod::lemma_fundamental_div_mod(-x, d);
    if x % d == 0 {
        assert(-x == d * (-(x / d))) by (nonlinear_arith)
            requires
                x == d * (x / d),
        ;
        vstd::arithmetic::div_mod::lemma_mod_multiples_basic(-(x / d), d);
        assert((d * (-(x / d))) % d == 0) by (nonlinear_arith)
            requires
                ((-(x / d)) * d) % d == 0,
        ;
    }
    if (-x) % d == 0 {
        assert(x == d * (-((-x) / d))) by (nonlinear_arith)
            requires
                -x == d * ((-x) / d),
        ;
        vstd::arithmetic::div_mod::lemma_mod_multiples_basic(-((-x) / d), d);
        assert((d * (-((-x) / d))) % d == 0) by (nonlinear_arith)
            requires
                ((-((-x) / d)) * d) % d == 0,
        ;
    }
}

/// Whether `anio` has a 29th of February.
pub fn es_bisiesto(anio: i32) -> (r: bool)
    ensures
        r == bisiesto(anio as int),
{
    // A year and its opposite have the same divisors.
    let a: i64 = if anio < 0 {
        -(anio as i64)
    } else {
        anio as i64
    };
    proof {
        lema_divisible_opuesto(anio as int, 4);
        lema_divisible_opuesto(anio as int, 100);
        lema_divisible_opuesto(anio as int, 400);
    }
    a % 4 == 0 && (a % 100 != 0 || a % 400 == 0)
}

/// The number of days of month `mes` of year `anio`.
pub fn dias_en_mes(anio: i32, mes: u32) -> (r: u32)
    ensures
        r == dias_del_mes(anio as int, mes as int),
{
    if mes == 2 {
        if es_bisiesto(anio) {
            29
        } else {
            28
        }
    } else if mes == 4 || mes == 6 || mes == 9 || mes == 11 {
        30
    } else {
        31
    }
}

impl Fecha {
    /// The date of the given year, month and day, if the calendar has it.
    pub fn new(anio: i32, mes: u32, dia: u32) -> (r: Option<Fecha>)
        ensures
            r == (if fecha_valida(Fecha { anio, mes, dia }) {
                Some(Fecha { anio, mes, dia })
            } else {
                None
            }),
    {
        let f = Fecha { anio, mes, dia };
        if f.es_valida() {
            Some(f)
        } else {
            None
        }
    }

    /// Whether the calendar has this date.
    pub fn es_valida(&self) -> (r: bool)
        ensures
            r == fecha_valida(*self),
    {
        ANIO_MIN <= self.anio && self.anio <= ANIO_MAX && 1 <= self.mes && self.mes <= 12 && 1
            <= self.dia && self.dia <= dias_en_mes(self.anio, self.mes)
    }

    /// The first day of the month of this date.
    pub fn primer_dia_del_mes(&self) -> (r: Fecha)
        ensures
            r == (Fecha { dia: 1, ..*self }),
    {
        Fecha { anio: self.anio, mes: self.mes, dia: 1 }
    }

    /// Whether this date comes before `otra`.
    pub fn anterior_a(&self, otra: &Fecha) -> (r: bool)
        ensures
            r == fecha_anterior(*self, *otra),
    {
        self.anio < otra.anio || (self.anio == otra.anio && (self.mes < otra.mes || (self.mes
            == otra.mes && self.dia < otra.dia)))
    }

    /// The date with `separador` between year, month and day.
    pub fn texto_con_separador(&self, separador: &str) -> (r: String)
        ensures
            r@ == fecha_en_texto(*self, separador@),
    {
        proof {
            reveal_strlit("-");
            reveal_strlit("+");
            assert("-"@ =~= seq!['-']);
            assert("+"@ =~= seq!['+']);
        }
        let mut s = String::new();
        let m: u128 = if self.anio < 0 {
            (-(self.anio as i64)) as u128
        } else {
            self.anio as u128
        };
        if self.anio < 0 {
            s.append("-");
        } else if self.anio > 9999 {
            s.append("+");
        }
        let a = texto_con_ceros(m, 4);
        s.append(a.as_str());
        assert(s@ =~= anio_en_texto(self.anio as int));
        s.append(separador);
        let mes = texto_con_ceros(self.mes as u128, 2);
        s.append(mes.as_str());
        s.append(separador);
        let dia = texto_con_ceros(self.dia as u128, 2);
        s.append(dia.as_str());
        assert(s@ =~= fecha_en_texto(*self, separador@));
        s
    }

    /// The date as in `2023-01-31`.
    pub fn texto_iso(&self) -> (r: String)
        ensures
            r@ == fecha_en_texto(*self, seq!['-']),
    {
        proof {
            reveal_strlit("-");
            assert("-"@ =~= seq!['-']);
        }
        self.texto_con_separador("-")
    }

    /// The date as in `20230131`.
    pub fn texto_compacto(&self) -> (r: String)
        ensures
            r@ == fecha_en_texto(*self, Seq::empty()),
    {
        proof {
            reveal_strlit("");
            assert(""@ =~= Seq::<char>::empty());
        }
        self.texto_con_separador("")
    }
}

} // verus!
