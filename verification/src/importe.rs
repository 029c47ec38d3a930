//! Reading amounts: decimal text to whole cents.

use vstd::prelude::*;
use crate::texto::caracteres;

verus! {

/// Whether `c` is one of the digits `0` to `9`.
pub open spec fn es_cifra(c: char) -> bool {
    '0' <= c <= '9'
}

/// The number that the digit `c` stands for.
pub open spec fn valor_cifra(c: char) -> nat {
    (c as int - '0' as int) as nat
}

/// Whether `t` holds digits only.
pub open spec fn todas_cifras(t: Seq<char>) -> bool {
    forall|i: int| 0 <= i < t.len() ==> es_cifra(#[trigger] t[i])
}

/// The number that the digits `t` write, zero for no digits.
pub open spec fn valor_natural(t: Seq<char>) -> nat
    decreases t.len(),
{
    if t.len() == 0 {
        0
    } else {
        valor_natural(t.drop_last()) * 10 + valor_cifra(t.last())
    }
}

/// The cents that the decimals `d` stand for: the first two digits, and
/// one more cent where the third digit is 5 or more.
pub open spec fn centimos_de_decimales(d: Seq<char>) -> nat {
    let decenas = if d.len() >= 1 {
        10 * valor_cifra(d[0])
    } else {
        0
    };
    let unidades = if d.len() >= 2 {
        valor_cifra(d[1])
    } else {
        0
    };
    let redondeo: nat = if d.len() >= 3 && valor_cifra(d[2]) >= 5 {
        1
    } else {
        0
    };
    decenas + unidades + redondeo
}

/// The position of the first `c` in `t`, or the length of `t` where it
/// holds none.
pub open spec fn primera_posicion(t: Seq<char>, c: char) -> int
    decreases t.len(),
{
    if t.len() == 0 {
        0
    } else if t[0] == c {
        0
    } else {
        1 + primera_posicion(t.skip(1), c)
    }
}

/// An amount without its sign, in cents: digits, and after an optional
/// point more digits, with one digit at least. `None` for any other text.
pub open spec fn magnitud_de_texto(t: Seq<char>) -> Option<nat> {
    let p = primera_posicion(t, '.');
    let entero = t.take(p);
    let decimales = if p < t.len() {
        t.skip(p + 1)
    } else {
        Seq::empty()
    };
    if todas_cifras(entero) && todas_cifras(decimales) && entero.len() + decimales.len() > 0 {
        Some(valor_natural(entero) * 100 + centimos_de_decimales(decimales))
    } else {
        None
    }
}

/// The amount in cents that a text writes: an optional sign, then the
/// amount in units with any number of decimals, rounded to the cent, halves
/// away from zero. `None` where the text is no such amount.
pub open spec fn importe_de_texto(t: Seq<char>) -> Option<int> {
    if t.len() > 0 && t[0] == '-' {
        match magnitud_de_texto(t.skip(1)) {
            Some(m) => Some(-(m as int)),
            None => None,
        }
    } else if t.len() > 0 && t[0] == '+' {
        match magnitud_de_texto(t.skip(1)) {
            Some(m) => Some(m as int),
            None => None,
        }
    } else {
        match magnitud_de_texto(t) {
            Some(m) => Some(m as int),
            None => None,
        }
    }
}

/// The amount that `parsear_importe` gives for a text: the amount that the
/// text writes, where it writes one that fits in 64 bits.
pub open spec fn importe_leido(t: Seq<char>) -> Option<i64> {
    match importe_de_texto(t) {
        Some(v) => if i64::MIN <= v <= i64::MAX {
            Some(v as i64)
        } else {
            None
        },
        None => None,
    }
}

/// `primera_posicion` is the place of the first `c`: within the text,
/// with no `c` before it.
pub proof fn lema_primera_posicion(t: Seq<char>, c: char)
    ensures
        0 <= primera_posicion(t, c) <= t.len(),
        primera_posicion(t, c) < t.len() ==> t[primera_posicion(t, c)] == c,
        forall|i: int| 0 <= i < primera_posicion(t, c) ==> t[i] != c,
    decreases t.len(),
{
    if t.len() > 0 && t[0] != c {
        lema_primera_posicion(t.skip(1), c);
        let p = primera_posicion(t.skip(1), c);
        assert forall|i: int| 0 <= i < 1 + p implies t[i] != c by {
            if i > 0 {
                assert(t.skip(1)[i - 1] == t[i]);
            }
        }
    }
}

/// A place that holds `c`, with no `c` before it, is the first position.
pub proof fn lema_es_primera_posicion(t: Seq<char>, c: char, p: int)
    requires
        0 <= p <= t.len(),
        p < t.len() ==> t[p] == c,
        forall|i: int| 0 <= i < p ==> t[i] != c,
    ensures
        primera_posicion(t, c) == p,
{
    lema_primera_posicion(t, c);
}

/// Reads the digits of `cs` from `desde` up to `hasta`. Gives their value,
/// or no value where it passes 2^64; fails where one of them is no digit.
fn leer_cifras(cs: &Vec<char>, desde: usize, hasta: usize) -> (r: Option<Option<u64>>)
    requires
        desde <= hasta <= cs@.len(),
    ensures
        r is Some <==> todas_cifras(cs@.subrange(desde as int, hasta as int)),
        r matches Some(Some(v)) ==> v == valor_natural(cs@.subrange(desde as int, hasta as int)),
        r matches Some(None) ==> valor_natural(cs@.subrange(desde as int, hasta as int))
            > u64::MAX,
{
    let ghost t = cs@.subrange(desde as int, hasta as int);
    let mut total: u64 = 0;
    let mut desbordado = false;
    let mut i: usize = desde;
    assert(t.take(0) =~= Seq::<char>::empty());
    while i < hasta
        invariant
            desde <= i <= hasta <= cs@.len(),
            t == cs@.subrange(desde as int, hasta as int),
            todas_cifras(t.take(i - desde)),
            !desbordado ==> total == valor_natural(t.take(i - desde)),
            desbordado ==> valor_natural(t.take(i - desde)) > u64::MAX,
        decreases hasta - i,
    {
        let c = cs[i];
        proof {
            assert(t.take(i - desde + 1).drop_last() =~= t.take(i - desde));
            assert(t.take(i - desde + 1).last() == c);
            assert(t[i - desde] == c);
        }
        if !(c >= '0' && c <= '9') {
            assert(!todas_cifras(t));
            return None;
        }
        let d: u64 = (c as u32 - '0' as u32) as u64;
        assert(d == valor_cifra(c));
        if !desbordado {
            if total > (u64::MAX - d) / 10 {
                desbordado = true;
            } else {
                total = total * 10 + d;
            }
        }
        proof {
            assert forall|k: int| 0 <= k < t.take(i - desde + 1).len() implies es_cifra(
                #[trigger] t.take(i - desde + 1)[k],
            ) by {
                if k < i - desde {
                    assert(t.take(i - desde)[k] == t[k]);
                }
            }
        }
        i = i + 1;
    }
    assert(t.take(hasta - desde) =~= t);
    if desbordado {
        Some(None)
    } else {
        Some(Some(total))
    }
}

/// Reads an amount without its sign from `cs[desde..]`, in cents. Gives no
/// value where the amount passes 2^64 cents; fails where the text is no
/// amount.
fn leer_magnitud(cs: &Vec<char>, desde: usize) -> (r: Option<Option<u64>>)
    requires
        desde <= cs@.len(),
    ensures
        r is Some <==> magnitud_de_texto(cs@.skip(desde as int)) is Some,
        r matches Some(Some(v)) ==> magnitud_de_texto(cs@.skip(desde as int)) == Some(v as nat),
        r matches Some(None) ==> magnitud_de_texto(cs@.skip(desde as int))->0 > u64::MAX,
{
    let ghost t = cs@.skip(desde as int);
    let n = cs.len();
    let mut p: usize = desde;
    while p < n && cs[p] != '.'
        invariant
            desde <= p <= n,
            n == cs@.len(),
            forall|i: int| desde <= i < p ==> cs@[i] != '.',
        decreases n - p,
    {
        p = p + 1;
    }
    proof {
        assert forall|i: int| 0 <= i < p - desde implies t[i] != '.' by {
            assert(t[i] == cs@[desde + i]);
        }
        lema_es_primera_posicion(t, '.', p - desde);
        assert(t.take(p - desde) =~= cs@.subrange(desde as int, p as int));
        if p < n {
            assert(t.skip(p - desde + 1) =~= cs@.subrange(p + 1, n as int));
        } else {
            assert(Seq::<char>::empty() =~= cs@.subrange(n as int, n as int));
        }
    }
    let inicio_decimales: usize = if p < n {
        p + 1
    } else {
        n
    };
    let ghost entero = cs@.subrange(desde as int, p as int);
    let ghost decimales = cs@.subrange(inicio_decimales as int, n as int);
    let e = match leer_cifras(cs, desde, p) {
        Some(e) => e,
        None => {
            return None;
        },
    };
    match leer_cifras(cs, inicio_decimales, n) {
        Some(_) => {},
        None => {
            return None;
        },
    }
    if (p - desde) + (n - inicio_decimales) == 0 {
        return None;
    }
    let mut c: u64 = 0;
    if n - inicio_decimales >= 1 {
        let d0 = cs[inicio_decimales];
        assert(decimales[0] == d0);
        assert(es_cifra(d0));
        c = 10 * ((d0 as u32 - '0' as u32) as u64);
    }
    if n - inicio_decimales >= 2 {
        let d1 = cs[inicio_decimales + 1];
        assert(decimales[1] == d1);
        assert(es_cifra(d1));
        c = c + (d1 as u32 - '0' as u32) as u64;
    }
    if n - inicio_decimales >= 3 {
        let d2 = cs[inicio_decimales + 2];
        assert(decimales[2] == d2);
        assert(es_cifra(d2));
        if d2 >= '5' {
            c = c + 1;
        }
    }
    assert(c == centimos_de_decimales(decimales));
    assert(c <= 100);
    match e {
        Some(v) => {
            if v > (u64::MAX - c) / 100 {
                Some(None)
            } else {
                Some(Some(v * 100 + c))
            }
        },
        None => Some(None),
    }
}

/// Reads an amount in cents from the characters `cs`.
pub fn importe_de_caracteres(cs: &Vec<char>) -> (r: Option<i64>)
    ensures
        r == importe_leido(cs@),
{
    let n = cs.len();
    let negativo = n > 0 && cs[0] == '-';
    let desde: usize = if n > 0 && (cs[0] == '-' || cs[0] == '+') {
        1
    } else {
        0
    };
    proof {
        assert(cs@.skip(0) =~= cs@);
    }
    match leer_magnitud(cs, desde) {
        Some(Some(m)) => {
            if negativo {
                if m <= 0x8000_0000_0000_0000 {
                    Some((-(m as i128)) as i64)
                } else {
                    None
                }
            } else {
                if m <= 0x7fff_ffff_ffff_ffff {
                    Some(m as i64)
                } else {
                    None
                }
            }
        },
        Some(None) => None,
        None => None,
    }
}

/// Reads an amount in cents from a text such as `20`, `-3.5` or `12.345`.
pub fn parsear_importe(texto: &str) -> (r: Option<i64>)
    ensures
        r == importe_leido(texto@),
{
    let cs = caracteres(texto);
    importe_de_caracteres(&cs)
}

} // verus!
