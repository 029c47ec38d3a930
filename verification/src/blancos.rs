//! White space in the text that is read: trimming and splitting into fields.

use vstd::prelude::*;
use vstd::string::*;
use crate::texto::{caracteres, vistas_textos};

verus! {

/// Whether `c` is white space: a character with the Unicode property
/// `White_Space`.
pub open spec fn blanco(c: char) -> bool {
    ||| '\u{9}' <= c <= '\u{d}'
    ||| c == ' '
    ||| c == '\u{85}'
    ||| c == '\u{a0}'
    ||| c == '\u{1680}'
    ||| '\u{2000}' <= c <= '\u{200a}'
    ||| c == '\u{2028}'
    ||| c == '\u{2029}'
    ||| c == '\u{202f}'
    ||| c == '\u{205f}'
    ||| c == '\u{3000}'
}

/// Whether `c` is white space.
pub fn es_blanco(c: char) -> (r: bool)
    ensures
        r == blanco(c),
{
    ('\u{9}' <= c && c <= '\u{d}') || c == ' ' || c == '\u{85}' || c == '\u{a0}' || c
        == '\u{1680}' || ('\u{2000}' <= c && c <= '\u{200a}') || c == '\u{2028}' || c
        == '\u{2029}' || c == '\u{202f}' || c == '\u{205f}' || c == '\u{3000}'
}

/// `t` without the white space at its start.
pub open spec fn sin_blancos_delante(t: Seq<char>) -> Seq<char>
    decreases t.len(),
{
    if t.len() > 0 && blanco(t[0]) {
        sin_blancos_delante(t.skip(1))
    } else {
        t
    }
}

/// `t` without the white space at its end.
pub open spec fn sin_blancos_detras(t: Seq<char>) -> Seq<char>
    decreases t.len(),
{
    if t.len() > 0 && blanco(t.last()) {
        sin_blancos_detras(t.drop_last())
    } else {
        t
    }
}

/// `t` without the white space at either end.
pub open spec fn recortado(t: Seq<char>) -> Seq<char> {
    sin_blancos_detras(sin_blancos_delante(t))
}

/// The fields of `t`: its runs of characters that are not white space, in
/// order.
pub open spec fn campos(t: Seq<char>) -> Seq<Seq<char>>
    decreases t.len(),
{
    if t.len() == 0 {
        Seq::empty()
    } else {
        let antes = campos(t.drop_last());
        if blanco(t.last()) {
            antes
        } else if t.len() >= 2 && !blanco(t[t.len() - 2]) && antes.len() > 0 {
            antes.update(antes.len() - 1, antes.last().push(t.last()))
        } else {
            antes.push(seq![t.last()])
        }
    }
}

/// Skipping `k` leading blanks changes nothing of what is left when all of
/// them are skipped.
proof fn lema_blancos_delante(t: Seq<char>, k: int)
    requires
        0 <= k <= t.len(),
        forall|i: int| 0 <= i < k ==> blanco(#[trigger] t[i]),
    ensures
        sin_blancos_delante(t) == sin_blancos_delante(t.skip(k)),
    decreases k,
{
    if k > 0 {
        assert(blanco(t[0]));
        assert forall|i: int| 0 <= i < k - 1 implies blanco(#[trigger] t.skip(1)[i]) by {
            assert(t.skip(1)[i] == t[i + 1]);
        }
        lema_blancos_delante(t.skip(1), k - 1);
        assert(t.skip(1).skip(k - 1) =~= t.skip(k));
    } else {
        assert(t.skip(0) =~= t);
    }
}

/// Dropping trailing blanks down to length `k` changes nothing of what is
/// left when all of them are dropped.
proof fn lema_blancos_detras(t: Seq<char>, k: int)
    requires
        0 <= k <= t.len(),
        forall|i: int| k <= i < t.len() ==> blanco(#[trigger] t[i]),
    ensures
        sin_blancos_detras(t) == sin_blancos_detras(t.take(k)),
    decreases t.len() - k,
{
    if k < t.len() {
        assert(blanco(t.last()));
        assert forall|i: int| k <= i < t.len() - 1 implies blanco(#[trigger] t.drop_last()[i]) by {
            assert(t.drop_last()[i] == t[i]);
        }
        lema_blancos_detras(t.drop_last(), k);
        assert(t.drop_last().take(k) =~= t.take(k));
    } else {
        assert(t.take(k) =~= t);
    }
}

/// `s` without the white space at either end.
pub fn recortar<'a>(s: &'a str) -> (r: &'a str)
    ensures
        r@ == recortado(s@),
{
    let cs = caracteres(s);
    let n = cs.len();
    let mut a: usize = 0;
    while a < n && es_blanco(cs[a])
        invariant
            a <= n,
            n == cs@.len(),
            forall|i: int| 0 <= i < a ==> blanco(#[trigger] cs@[i]),
        decreases n - a,
    {
        a = a + 1;
    }
    let mut b: usize = n;
    while b > a && es_blanco(cs[b - 1])
        invariant
            a <= b <= n,
            n == cs@.len(),
            forall|i: int| b <= i < n ==> blanco(#[trigger] cs@[i]),
        decreases b,
    {
        b = b - 1;
    }
    proof {
        let t = s@;
        lema_blancos_delante(t, a as int);
        let u = t.skip(a as int);
        assert(u.len() == 0 || !blanco(u[0])) by {
            if u.len() > 0 {
                assert(u[0] == cs@[a as int]);
            }
        }
        assert(sin_blancos_delante(u) == u);
        assert forall|i: int| b - a <= i < u.len() implies blanco(#[trigger] u[i]) by {
            assert(u[i] == cs@[a + i]);
        }
        lema_blancos_detras(u, b - a);
        let v = u.take(b - a);
        assert(v.len() == 0 || !blanco(v.last())) by {
            if v.len() > 0 {
                assert(v.last() == cs@[b - 1]);
            }
        }
        assert(sin_blancos_detras(v) == v);
        assert(v =~= t.subrange(a as int, b as int));
    }
    s.substring_char(a, b)
}

/// The fields of `s`: its runs of characters that are not white space.
pub fn separar_campos<'a>(s: &'a str) -> (r: Vec<&'a str>)
    ensures
        vistas_textos(r@) == campos(s@),
{
    let cs = caracteres(s);
    let n = cs.len();
    let mut r: Vec<&'a str> = Vec::new();
    let mut inicio: usize = 0;
    let mut dentro = false;
    let mut i: usize = 0;
    let ghost t = s@;
    proof {
        assert(t.take(0) =~= Seq::<char>::empty());
        assert(vistas_textos(r@) =~= campos(t.take(0)));
    }
    while i < n
        invariant
            i <= n,
            n == cs@.len(),
            cs@ == s@,
            t == s@,
            dentro ==> inicio < i && !blanco(t[i - 1]) && campos(t.take(i as int))
                == vistas_textos(r@).push(t.subrange(inicio as int, i as int)),
            !dentro ==> (i == 0 || blanco(t[i - 1])) && campos(t.take(i as int)) == vistas_textos(
                r@,
            ),
        decreases n - i,
    {
        proof {
            assert(t.take(i + 1).drop_last() =~= t.take(i as int));
            assert(t.take(i + 1).last() == cs@[i as int]);
            if i > 0 {
                assert(t.take(i + 1)[i - 1] == t[i - 1]);
            }
        }
        let ghost hechos = vistas_textos(r@);
        if es_blanco(cs[i]) {
            if dentro {
                let pieza = s.substring_char(inicio, i);
                r.push(pieza);
                dentro = false;
                proof {
                    assert(vistas_textos(r@) =~= hechos.push(pieza@));
                }
            }
        } else {
            if dentro {
                proof {
                    assert(t.subrange(inicio as int, i as int).push(cs@[i as int]) =~= t.subrange(
                        inicio as int,
                        i + 1,
                    ));
                    assert(hechos.push(t.subrange(inicio as int, i as int)).update(
                        hechos.len() as int,
                        t.subrange(inicio as int, i as int).push(cs@[i as int]),
                    ) =~= hechos.push(t.subrange(inicio as int, i + 1)));
                }
            } else {
                inicio = i;
                dentro = true;
                proof {
                    assert(seq![cs@[i as int]] =~= t.subrange(i as int, i + 1));
                }
            }
        }
        i = i + 1;
    }
    proof {
        assert(t.take(n as int) =~= t);
    }
    if dentro {
        let ghost hechos = vistas_textos(r@);
        let pieza = s.substring_char(inicio, n);
        r.push(pieza);
        proof {
            assert(vistas_textos(r@) =~= hechos.push(pieza@));
        }
    }
    r
}

} // verus!
