//! Accounts that go by their name, each in a category.

use vstd::prelude::*;
use vstd::string::*;
use crate::cuadro_contable::cuenta::{Apunte, Lado};
use crate::cuenta::CuentaV as BaseV;

verus! {

/// The kinds of assets.
#[derive(Debug, Clone, Copy, PartialEq, Eq, Structural)]
pub enum Activos {
    ActivoCorriente,
    ActivoNoCorriente,
}

/// The kinds of liabilities.
#[derive(Debug, Clone, Copy, PartialEq, Eq, Structural)]
pub enum Pasivos {
    PasivoCorriente,
    PasivoNoCorriente,
}

/// The kinds of equity: capital, and the income and expense that change it.
#[derive(Debug, Clone, Copy, PartialEq, Eq, Structural)]
pub enum Patrimonios {
    Capital,
    Ingresos,
    Gastos,
}

/// The category of an account.
#[derive(Debug, Clone, Copy, PartialEq, Eq, Structural)]
pub enum Masa {
    Activo(Activos),
    Pasivo(Pasivos),
    Patrimonio(Patrimonios),
}

/// The mathematical content of an account: its name, its category, and
/// what was added to and taken from its balance, in order.
pub struct CuentaV {
    pub nombre: Seq<char>,
    pub masa: Masa,
    pub apuntes: Seq<Apunte>,
}

impl CuentaV {
    /// The balance: what was added less what was taken away.
    pub open spec fn saldo(self) -> int {
        (BaseV { nombre: self.nombre, apuntes: self.apuntes }).saldo()
    }

    /// The account after one more change to its balance.
    pub open spec fn con_apunte(self, apunte: Apunte) -> CuentaV {
        CuentaV { apuntes: self.apuntes.push(apunte), ..self }
    }
}

/// An account: a plain account together with its category.
#[derive(Debug, PartialEq)]
pub struct Cuenta {
    base: crate::cuenta::Cuenta,
    masa: Masa,
}

impl View for Cuenta {
    type V = CuentaV;

    closed spec fn view(&self) -> CuentaV {
        CuentaV { nombre: self.base@.nombre, masa: self.masa, apuntes: self.base@.apuntes }
    }
}

impl Cuenta {
    /// The plain account inside is well formed.
    pub closed spec fn wf(&self) -> bool {
        self.base.wf()
    }

    /// A new account with a balance of zero.
    pub fn new(nombre: &str, masa: Masa) -> (c: Cuenta)
        ensures
            c.wf(),
            c@ == (CuentaV { nombre: nombre@, masa, apuntes: Seq::empty() }),
            c@.saldo() == 0,
    {
        Cuenta { base: crate::cuenta::Cuenta::new(nombre), masa }
    }

    /// Adds `importe` to the balance and returns the new balance.
    pub fn incrementar_saldo(&mut self, importe: &i64) -> (r: i128)
        requires
            old(self).wf(),
        ensures
            final(self).wf(),
            final(self)@ == old(self)@.con_apunte(Apunte { lado: Lado::Debe, importe: *importe }),
            r == final(self)@.saldo(),
            r == old(self)@.saldo() + *importe,
    {
        self.base.incrementar_saldo(importe)
    }

    /// Takes `importe` from the balance and returns the new balance.
    pub fn reducir_saldo(&mut self, importe: &i64) -> (r: i128)
        requires
            old(self).wf(),
        ensures
            final(self).wf(),
            final(self)@ == old(self)@.con_apunte(Apunte { lado: Lado::Haber, importe: *importe }),
            r == final(self)@.saldo(),
            r == old(self)@.saldo() - *importe,
    {
        self.base.reducir_saldo(importe)
    }

    /// The balance of the account, in cents.
    pub fn saldo(&self) -> (r: i128)
        requires
            self.wf(),
        ensures
            r == self@.saldo(),
    {
        self.base.saldo()
    }

    /// A copy of the account's name.
    pub fn nombre(&self) -> (r: String)
        ensures
            r@ == self@.nombre,
    {
        self.base.nombre()
    }

    /// The category of the account.
    pub fn masa(&self) -> (r: Masa)
        ensures
            r == self@.masa,
    {
        self.masa
    }
}

} // verus!
