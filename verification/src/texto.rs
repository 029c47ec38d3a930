//! Building report text: decimal numbers, amounts and padded fields.

use vstd::prelude::*;
use vstd::string::*;
use vstd::std_specs::iter::IteratorSpec;

verus! {

/// The character of the decimal digit `d`.
pub open spec fn cifra(d: int) -> char {
    if d == 0 {
        '0'
    } else if d == 1 {
        '1'
    } else if d == 2 {
        '2'
    } else if d == 3 {
        '3'
    } else if d == 4 {
        '4'
    } else if d == 5 {
        '5'
    } else if d == 6 {
        '6'
    } else if d == 7 {
        '7'
    } else if d == 8 {
        '8'
    } else {
        '9'
    }
}

/// The decimal digits of `n`, most significant first, without leading zeros.
pub open spec fn cifras(n: nat) -> Seq<char>
    decreases n,
{
    if n < 10 {
        seq![cifra(n as int)]
    } else {
        cifras(n / 10).push(cifra((n % 10) as int))
    }
}

/// `relleno` written `n` times.
pub open spec fn repetido(relleno: Seq<char>, n: nat) -> Seq<char>
    decreases n,
{
    if n == 0 {
        Seq::empty()
    } else {
        repetido(relleno, (n - 1) as nat) + relleno
    }
}

/// How many characters a text of `largo` characters lacks to fill `ancho`.
pub open spec fn hueco(largo: nat, ancho: nat) -> nat {
    if largo < ancho {
        (ancho - largo) as nat
    } else {
        0
    }
}

/// `t` pushed to the right edge of a field of `ancho` characters.
pub open spec fn alineado_derecha(t: Seq<char>, ancho: nat, relleno: Seq<char>) -> Seq<char> {
    repetido(relleno, hueco(t.len(), ancho)) + t
}

/// `t` at the left edge of a field of `ancho` characters.
pub open spec fn alineado_izquierda(t: Seq<char>, ancho: nat, relleno: Seq<char>) -> Seq<char> {
    t + repetido(relleno, hueco(t.len(), ancho))
}

/// `t` in the middle of a field of `ancho` characters; where the gap is
/// odd, the extra filler goes to the right.
pub open spec fn centrado(t: Seq<char>, ancho: nat, relleno: Seq<char>) -> Seq<char> {
    let h = hueco(t.len(), ancho);
    repetido(relleno, h / 2) + t + repetido(relleno, (h - h / 2) as nat)
}

/// The digits of `n`, with zeros in front up to `ancho` characters.
pub open spec fn cifras_con_ceros(n: nat, ancho: nat) -> Seq<char> {
    alineado_derecha(cifras(n), ancho, seq!['0'])
}

/// An amount of `centimos` cents written in units with two decimals.
pub open spec fn importe_en_texto(centimos: int) -> Seq<char> {
    let m: nat = if centimos < 0 {
        (-centimos) as nat
    } else {
        centimos as nat
    };
    let signo: Seq<char> = if centimos < 0 {
        seq!['-']
    } else {
        Seq::empty()
    };
    signo + cifras(m / 100) + seq!['.'] + cifras_con_ceros(m % 100, 2)
}

/// Whether two texts hold the same characters.
pub fn mismo_texto(a: &str, b: &str) -> (r: bool)
    ensures
        r == (a@ == b@),
{
    let x = a.to_owned();
    let y = b.to_owned();
    x == y
}

/// The characters of a text, one by one.
pub fn caracteres(s: &str) -> (v: Vec<char>)
    ensures
        v@ == s@,
{
    broadcast use vstd::string::group_string_axioms;

    let mut v: Vec<char> = Vec::new();
    let mut it = s.chars();
    loop
        invariant
            it.obeys_prophetic_iter_laws(),
            s@ == v@ + it.remaining(),
            it.decrease() is Some,
        ensures
            v@ == s@,
        decreases it.decrease()->0,
    {
        match it.next() {
            Some(c) => {
                v.push(c);
            },
            None => {
                break ;
            },
        }
    }
    v
}

/// The one-character text of the decimal digit `d`.
pub fn texto_cifra(d: u8) -> (r: &'static str)
    requires
        d < 10,
    ensures
        r@ == seq![cifra(d as int)],
{
    proof {
        reveal_strlit("0");
        reveal_strlit("1");
        reveal_strlit("2");
        reveal_strlit("3");
        reveal_strlit("4");
        reveal_strlit("5");
        reveal_strlit("6");
        reveal_strlit("7");
        reveal_strlit("8");
        reveal_strlit("9");
    }
    let r = if d == 0 {
        "0"
    } else if d == 1 {
        "1"
    } else if d == 2 {
        "2"
    } else if d == 3 {
        "3"
    } else if d == 4 {
        "4"
    } else if d == 5 {
        "5"
    } else if d == 6 {
        "6"
    } else if d == 7 {
        "7"
    } else if d == 8 {
        "8"
    } else {
        "9"
    };
    assert(r@ =~= seq![cifra(d as int)]);
    r
}

/// Writes the decimal digits of `n` at the end of `s`.
pub fn anexar_natural(s: &mut String, n: u128)
    ensures
        final(s)@ == old(s)@ + cifras(n as nat),
    decreases n,
{
    if n >= 10 {
        anexar_natural(s, n / 10);
    }
    let d: u8 = (n % 10) as u8;
    s.append(texto_cifra(d));
    assert(final(s)@ =~= old(s)@ + cifras(n as nat));
}

/// The decimal digits of `n`.
pub fn texto_natural(n: u128) -> (r: String)
    ensures
        r@ == cifras(n as nat),
{
    let mut s = String::new();
    anexar_natural(&mut s, n);
    assert(s@ =~= cifras(n as nat));
    s
}

/// Writes `relleno` `n` times at the end of `s`.
pub fn anexar_repetido(s: &mut String, relleno: &str, n: usize)
    ensures
        final(s)@ == old(s)@ + repetido(relleno@, n as nat),
{
    let mut i: usize = 0;
    assert(s@ =~= old(s)@ + repetido(relleno@, 0));
    while i < n
        invariant
            i <= n,
            s@ == old(s)@ + repetido(relleno@, i as nat),
        decreases n - i,
    {
        s.append(relleno);
        i = i + 1;
        assert(s@ =~= old(s)@ + repetido(relleno@, i as nat));
    }
}

/// `t` pushed to the right edge of a field of `ancho` characters, the gap
/// filled with `relleno`.
pub fn alinear_derecha(t: &str, ancho: usize, relleno: &str) -> (r: String)
    ensures
        r@ == alineado_derecha(t@, ancho as nat, relleno@),
{
    let largo = t.unicode_len();
    let mut s = String::new();
    if largo < ancho {
        anexar_repetido(&mut s, relleno, ancho - largo);
    }
    s.append(t);
    assert(s@ =~= alineado_derecha(t@, ancho as nat, relleno@));
    s
}

/// `t` at the left edge of a field of `ancho` characters, the gap filled
/// with `relleno`.
pub fn alinear_izquierda(t: &str, ancho: usize, relleno: &str) -> (r: String)
    ensures
        r@ == alineado_izquierda(t@, ancho as nat, relleno@),
{
    let largo = t.unicode_len();
    let mut s = String::from_str(t);
    if largo < ancho {
        anexar_repetido(&mut s, relleno, ancho - largo);
    }
    assert(s@ =~= alineado_izquierda(t@, ancho as nat, relleno@));
    s
}

/// `t` in the middle of a field of `ancho` characters, the gap filled with
/// `relleno` on both sides.
pub fn centrar(t: &str, ancho: usize, relleno: &str) -> (r: String)
    ensures
        r@ == centrado(t@, ancho as nat, relleno@),
{
    let largo = t.unicode_len();
    let h: usize = if largo < ancho {
        ancho - largo
    } else {
        0
    };
    let mut s = String::new();
    anexar_repetido(&mut s, relleno, h / 2);
    s.append(t);
    anexar_repetido(&mut s, relleno, h - h / 2);
    assert(s@ =~= centrado(t@, ancho as nat, relleno@));
    s
}

/// The digits of `n`, with zeros in front up to `ancho` characters.
pub fn texto_con_ceros(n: u128, ancho: usize) -> (r: String)
    ensures
        r@ == cifras_con_ceros(n as nat, ancho as nat),
{
    proof {
        reveal_strlit("0");
        assert("0"@ =~= seq!['0']);
    }
    let t = texto_natural(n);
    alinear_derecha(t.as_str(), ancho, "0")
}

/// An amount of `centimos` cents written in units with two decimals, as in
/// `-12.05`.
pub fn texto_importe(centimos: i128) -> (r: String)
    ensures
        r@ == importe_en_texto(centimos as int),
{
    proof {
        reveal_strlit("-");
        reveal_strlit(".");
        assert("-"@ =~= seq!['-']);
        assert("."@ =~= seq!['.']);
    }
    let m: u128 = if centimos < 0 {
        (-(centimos + 1)) as u128 + 1
    } else {
        centimos as u128
    };
    let mut s = String::new();
    if centimos < 0 {
        s.append("-");
    }
    anexar_natural(&mut s, m / 100);
    s.append(".");
    let decimales = texto_con_ceros(m % 100, 2);
    s.append(decimales.as_str());
    assert(s@ =~= importe_en_texto(centimos as int));
    s
}

/// The pieces of `t` between one `sep` and the next, in order: one more
/// than `t` holds separators, so that an empty text gives one empty piece.
pub open spec fn partes(t: Seq<char>, sep: char) -> Seq<Seq<char>>
    decreases t.len(),
{
    if t.len() == 0 {
        seq![Seq::empty()]
    } else {
        let antes = partes(t.drop_last(), sep);
        if t.last() == sep {
            antes.push(Seq::empty())
        } else {
            antes.update(antes.len() - 1, antes.last().push(t.last()))
        }
    }
}

/// The contents of a list of texts.
pub open spec fn vistas_textos(ts: Seq<&str>) -> Seq<Seq<char>> {
    ts.map_values(|t: &str| t@)
}

/// `partes` always gives at least one piece.
pub proof fn lema_partes_no_vacio(t: Seq<char>, sep: char)
    ensures
        partes(t, sep).len() >= 1,
    decreases t.len(),
{
    if t.len() > 0 {
        lema_partes_no_vacio(t.drop_last(), sep);
    }
}

/// Cuts `s` at each `sep`.
pub fn partir<'a>(s: &'a str, sep: char) -> (r: Vec<&'a str>)
    ensures
        vistas_textos(r@) == partes(s@, sep),
{
    let cs = caracteres(s);
    let n = cs.len();
    let mut r: Vec<&'a str> = Vec::new();
    let mut inicio: usize = 0;
    let mut i: usize = 0;
    let ghost t = s@;
    proof {
        assert(t.take(0) =~= Seq::<char>::empty());
        assert(vistas_textos(r@).push(t.subrange(0, 0)) =~= partes(t.take(0), sep));
    }
    while i < n
        invariant
            i <= n,
            n == cs@.len(),
            cs@ == s@,
            t == s@,
            inicio <= i,
            partes(t.take(i as int), sep) == vistas_textos(r@).push(
                t.subrange(inicio as int, i as int),
            ),
        decreases n - i,
    {
        proof {
            assert(t.take(i + 1).drop_last() =~= t.take(i as int));
            assert(t.take(i + 1).last() == cs@[i as int]);
        }
        let ghost hechas = vistas_textos(r@);
        if cs[i] == sep {
            let pieza = s.substring_char(inicio, i);
            r.push(pieza);
            inicio = i + 1;
            proof {
                assert(vistas_textos(r@) =~= hechas.push(pieza@));
                assert(t.subrange(inicio as int, i + 1) =~= Seq::<char>::empty());
            }
        } else {
            proof {
                assert(t.subrange(inicio as int, i as int).push(cs@[i as int]) =~= t.subrange(
                    inicio as int,
                    i + 1,
                ));
                assert(hechas.push(t.subrange(inicio as int, i as int)).update(
                    hechas.len() as int,
                    t.subrange(inicio as int, i as int).push(cs@[i as int]),
                ) =~= hechas.push(t.subrange(inicio as int, i + 1)));
            }
        }
        i = i + 1;
    }
    let ghost hechas = vistas_textos(r@);
    let pieza = s.substring_char(inicio, n);
    r.push(pieza);
    proof {
        assert(t.take(n as int) =~= t);
        assert(vistas_textos(r@) =~= hechas.push(pieza@));
    }
    r
}

} // verus!
