//! Accounts and their postings.

use vstd::prelude::*;
use vstd::string::*;
use vstd::utf8::encode_utf8;
use super::masa::Masa;
use crate::texto::{alineado_derecha, alinear_derecha, importe_en_texto, texto_importe};

verus! {

/// The error when an operation names an account that the chart does not hold.
#[derive(Debug, PartialEq)]
pub struct CuentaError;

/// The side of an entry on which an amount is posted.
#[derive(Debug, Clone, Copy, PartialEq, Eq, Structural)]
pub enum Lado {
    Debe,
    Haber,
}

/// One posting to an account: an amount in cents on one side.
#[derive(Debug, Clone, Copy, PartialEq, Eq, Structural)]
pub struct Apunte {
    pub lado: Lado,
    pub importe: i64,
}

/// What a posting adds to the total of side `lado`.
pub open spec fn aporte(apunte: Apunte, lado: Lado) -> int {
    if apunte.lado == lado {
        apunte.importe as int
    } else {
        0
    }
}

/// The sum of the amounts posted on side `lado`.
pub open spec fn suma_lado(apuntes: Seq<Apunte>, lado: Lado) -> int
    decreases apuntes.len(),
{
    if apuntes.len() == 0 {
        0
    } else {
        suma_lado(apuntes.drop_last(), lado) + aporte(apuntes.last(), lado)
    }
}

/// The magnitude of an integer.
pub open spec fn magnitud(x: int) -> int {
    if x < 0 {
        -x
    } else {
        x
    }
}

/// Each posting moves one of the two totals by at most 2^63, so both totals
/// together stay within that bound times the number of postings.
pub proof fn lema_cota_sumas(apuntes: Seq<Apunte>)
    ensures
        magnitud(suma_lado(apuntes, Lado::Debe)) + magnitud(suma_lado(apuntes, Lado::Haber))
            <= apuntes.len() * 0x8000_0000_0000_0000,
    decreases apuntes.len(),
{
    if apuntes.len() > 0 {
        lema_cota_sumas(apuntes.drop_last());
    }
}

/// The totals of a list that fits in memory, and their difference, fit in
/// 128 bits.
pub proof fn lema_sumas_caben(apuntes: Seq<Apunte>)
    requires
        apuntes.len() <= usize::MAX,
    ensures
        i128::MIN < suma_lado(apuntes, Lado::Debe) < i128::MAX,
        i128::MIN < suma_lado(apuntes, Lado::Haber) < i128::MAX,
        i128::MIN < suma_lado(apuntes, Lado::Debe) - suma_lado(apuntes, Lado::Haber) < i128::MAX,
{
    lema_cota_sumas(apuntes);
    assert(apuntes.len() * 0x8000_0000_0000_0000 <= 0xffff_ffff_ffff_ffff * 0x8000_0000_0000_0000);
}

/// Adding a posting to a list changes the total of its own side only.
pub proof fn lema_suma_push(apuntes: Seq<Apunte>, apunte: Apunte, lado: Lado)
    ensures
        suma_lado(apuntes.push(apunte), lado) == suma_lado(apuntes, lado) + aporte(apunte, lado),
{
    assert(apuntes.push(apunte).drop_last() =~= apuntes);
}

/// The total of two lists of postings, one after the other, is the sum of
/// their totals.
pub proof fn lema_suma_concatena(a: Seq<Apunte>, b: Seq<Apunte>, lado: Lado)
    ensures
        suma_lado(a + b, lado) == suma_lado(a, lado) + suma_lado(b, lado),
    decreases b.len(),
{
    if b.len() == 0 {
        assert(a + b =~= a);
    } else {
        lema_suma_concatena(a, b.drop_last(), lado);
        assert((a + b).drop_last() =~= a + b.drop_last());
        assert((a + b).last() == b.last());
    }
}

/// The sign with which a posting enters the balance: debits add to it,
/// credits take from it.
pub open spec fn efecto(apunte: Apunte) -> int {
    match apunte.lado {
        Lado::Debe => apunte.importe as int,
        Lado::Haber => -(apunte.importe as int),
    }
}

/// The mathematical content of an account.
pub struct CuentaV {
    pub nombre: Seq<char>,
    pub codigo: Seq<char>,
    pub masa: Masa,
    pub apuntes: Seq<Apunte>,
}

impl CuentaV {
    /// The total posted on the debit side.
    pub open spec fn saldo_deudor(self) -> int {
        suma_lado(self.apuntes, Lado::Debe)
    }

    /// The total posted on the credit side.
    pub open spec fn saldo_acreedor(self) -> int {
        suma_lado(self.apuntes, Lado::Haber)
    }

    /// The balance: debit total less credit total.
    pub open spec fn saldo(self) -> int {
        self.saldo_deudor() - self.saldo_acreedor()
    }

    /// The account after one more posting.
    pub open spec fn con_apunte(self, apunte: Apunte) -> CuentaV {
        CuentaV { apuntes: self.apuntes.push(apunte), ..self }
    }

    /// The account with no postings.
    pub open spec fn sin_apuntes(self) -> CuentaV {
        CuentaV { apuntes: Seq::empty(), ..self }
    }
}

/// How a report heads an account: code in brackets, then the name.
pub open spec fn cabecera_cuenta(c: CuentaV) -> Seq<char> {
    "("@ + c.codigo + ") "@ + c.nombre
}

/// The balance of an account as a report shows it.
pub open spec fn saldo_en_texto(c: CuentaV) -> Seq<char> {
    importe_en_texto(c.saldo()) + " €"@
}

/// An account as a line of a report: heading, a tilde, balance.
pub open spec fn cuenta_en_texto(c: CuentaV) -> Seq<char> {
    cabecera_cuenta(c) + " ~ "@ + saldo_en_texto(c)
}

/// An account as a row of `ancho` columns: the heading, then the balance
/// at the right edge with dots in between. The room that is left for the
/// balance is `ancho` less the bytes of the heading. Where the heading
/// leaves no room, a single space parts the two.
pub open spec fn cuenta_en_ancho(c: CuentaV, ancho: nat) -> Seq<char> {
    let ocupado = encode_utf8(cabecera_cuenta(c)).len();
    if ancho > ocupado {
        cabecera_cuenta(c) + alineado_derecha(saldo_en_texto(c), (ancho - ocupado) as nat, "."@)
    } else {
        cabecera_cuenta(c) + " "@ + saldo_en_texto(c)
    }
}

/// After any posting the balance is still the debit total less the credit
/// total, and it has moved by the amount posted: up for a debit, down for a
/// credit.
pub proof fn lema_saldo_con_apunte(c: CuentaV, apunte: Apunte)
    ensures
        c.con_apunte(apunte).saldo() == c.con_apunte(apunte).saldo_deudor() - c.con_apunte(
            apunte,
        ).saldo_acreedor(),
        c.con_apunte(apunte).saldo() == c.saldo() + efecto(apunte),
{
    lema_suma_push(c.apuntes, apunte, Lado::Debe);
    lema_suma_push(c.apuntes, apunte, Lado::Haber);
}

/// An account: a code, a name, a category, the postings made to it in
/// order, and the running totals of each side. The number of postings
/// bounds both totals, so that they and the balance always fit.
#[derive(Debug, PartialEq)]
pub struct Cuenta {
    nombre: String,
    codigo: String,
    masa: Masa,
    apuntes: Vec<Apunte>,
    saldo_deudor: i128,
    saldo_acreedor: i128,
}

impl View for Cuenta {
    type V = CuentaV;

    closed spec fn view(&self) -> CuentaV {
        CuentaV {
            nombre: self.nombre@,
            codigo: self.codigo@,
            masa: self.masa,
            apuntes: self.apuntes@,
        }
    }
}

impl Cuenta {
    /// The running totals agree with the postings.
    pub closed spec fn wf(&self) -> bool {
        &&& self.saldo_deudor == suma_lado(self.apuntes@, Lado::Debe)
        &&& self.saldo_acreedor == suma_lado(self.apuntes@, Lado::Haber)
    }

    /// A new account with no postings and a balance of zero.
    pub fn new(nombre: &str, codigo: &str, masa: Masa) -> (c: Cuenta)
        ensures
            c.wf(),
            c@ == (CuentaV { nombre: nombre@, codigo: codigo@, masa, apuntes: Seq::empty() }),
    {
        Cuenta {
            nombre: nombre.to_owned(),
            codigo: codigo.to_owned(),
            masa,
            apuntes: Vec::new(),
            saldo_deudor: 0,
            saldo_acreedor: 0,
        }
    }

    /// Posts `importe` on the debit side.
    pub fn saldo_deudor(&mut self, importe: i64)
        requires
            old(self).wf(),
        ensures
            final(self).wf(),
            final(self)@ == old(self)@.con_apunte(Apunte { lado: Lado::Debe, importe }),
    {
        let apunte = Apunte { lado: Lado::Debe, importe };
        proof {
            lema_suma_push(self.apuntes@, apunte, Lado::Debe);
            lema_suma_push(self.apuntes@, apunte, Lado::Haber);
        }
        self.apuntes.push(apunte);
        proof {
            assert(self.apuntes@.len() == self.apuntes.len());
            lema_sumas_caben(self.apuntes@);
        }
        self.saldo_deudor = self.saldo_deudor + importe as i128;
    }

    /// Posts `importe` on the credit side.
    pub fn saldo_acreedor(&mut self, importe: i64)
        requires
            old(self).wf(),
        ensures
            final(self).wf(),
            final(self)@ == old(self)@.con_apunte(Apunte { lado: Lado::Haber, importe }),
    {
        let apunte = Apunte { lado: Lado::Haber, importe };
        proof {
            lema_suma_push(self.apuntes@, apunte, Lado::Debe);
            lema_suma_push(self.apuntes@, apunte, Lado::Haber);
        }
        self.apuntes.push(apunte);
        proof {
            assert(self.apuntes@.len() == self.apuntes.len());
            lema_sumas_caben(self.apuntes@);
        }
        self.saldo_acreedor = self.saldo_acreedor + importe as i128;
    }

    /// Forgets every posting: both totals go back to zero.
    pub fn reiniciar(&mut self)
        requires
            old(self).wf(),
        ensures
            final(self).wf(),
            final(self)@ == old(self)@.sin_apuntes(),
    {
        self.apuntes.clear();
        self.saldo_deudor = 0;
        self.saldo_acreedor = 0;
    }

    /// A copy of the account's name.
    pub fn nombre(&self) -> (r: String)
        ensures
            r@ == self@.nombre,
    {
        self.nombre.clone()
    }

    /// A copy of the account's code.
    pub fn codigo(&self) -> (r: String)
        ensures
            r@ == self@.codigo,
    {
        self.codigo.clone()
    }

    /// The account's category.
    pub fn masa(&self) -> (r: Masa)
        ensures
            r == self@.masa,
    {
        self.masa
    }

    /// The postings made to the account, oldest first.
    pub fn apuntes(&self) -> (r: &Vec<Apunte>)
        ensures
            r@ == self@.apuntes,
    {
        &self.apuntes
    }

    /// The total posted on the debit side.
    pub fn total_deudor(&self) -> (r: i128)
        requires
            self.wf(),
        ensures
            r == self@.saldo_deudor(),
    {
        self.saldo_deudor
    }

    /// The total posted on the credit side.
    pub fn total_acreedor(&self) -> (r: i128)
        requires
            self.wf(),
        ensures
            r == self@.saldo_acreedor(),
    {
        self.saldo_acreedor
    }

    /// The balance of the account: what was posted on the debit side less
    /// what was posted on the credit side.
    pub fn saldo(&self) -> (r: i128)
        requires
            self.wf(),
        ensures
            r == self@.saldo_deudor() - self@.saldo_acreedor(),
            r == self@.saldo(),
    {
        proof {
            assert(self.apuntes@.len() == self.apuntes.len());
            lema_sumas_caben(self.apuntes@);
        }
        self.saldo_deudor - self.saldo_acreedor
    }

    /// The heading of the account in a report.
    fn cabecera(&self) -> (r: String)
        ensures
            r@ == cabecera_cuenta(self@),
    {
        let mut s = String::from_str("(");
        s.append(self.codigo.as_str());
        s.append(") ");
        s.append(self.nombre.as_str());
        assert(s@ =~= cabecera_cuenta(self@));
        s
    }

    /// The balance of the account as a report shows it.
    fn texto_saldo(&self) -> (r: String)
        requires
            self.wf(),
        ensures
            r@ == saldo_en_texto(self@),
    {
        let mut s = texto_importe(self.saldo());
        s.append(" €");
        s
    }

    /// The account as a line of a report, as in `(572) Bancos ~ 20.00 €`.
    pub fn to_string(&self) -> (r: String)
        requires
            self.wf(),
        ensures
            r@ == cuenta_en_texto(self@),
    {
        let mut s = self.cabecera();
        s.append(" ~ ");
        let saldo = self.texto_saldo();
        s.append(saldo.as_str());
        assert(s@ =~= cuenta_en_texto(self@));
        s
    }

    /// The account as a row of `ancho` columns, as in
    /// `(572) Bancos...20.00 €`.
    pub fn texto_con_ancho(&self, ancho: usize) -> (r: String)
        requires
            self.wf(),
        ensures
            r@ == cuenta_en_ancho(self@, ancho as nat),
    {
        let mut s = self.cabecera();
        let saldo = self.texto_saldo();
        let ocupado = s.as_str().as_bytes().len();
        if ancho > ocupado {
            let resto = alinear_derecha(saldo.as_str(), ancho - ocupado, ".");
            s.append(resto.as_str());
        } else {
            s.append(" ");
            s.append(saldo.as_str());
        }
        assert(s@ =~= cuenta_en_ancho(self@, ancho as nat));
        s
    }
}

} // verus!
