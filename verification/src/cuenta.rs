//! A plain account: a name and a balance.

use vstd::prelude::*;
use vstd::string::*;
use crate::cuadro_contable::cuenta::{
    lema_suma_push, lema_sumas_caben, suma_lado, Apunte, Lado,
};

verus! {

/// The mathematical content of a plain account: its name and what was
/// added to and taken from its balance, in order.
pub struct CuentaV {
    pub nombre: Seq<char>,
    pub apuntes: Seq<Apunte>,
}

impl CuentaV {
    /// The balance: what was added less what was taken away.
    pub open spec fn saldo(self) -> int {
        suma_lado(self.apuntes, Lado::Debe) - suma_lado(self.apuntes, Lado::Haber)
    }

    /// The account after one more change to its balance.
    pub open spec fn con_apunte(self, apunte: Apunte) -> CuentaV {
        CuentaV { apuntes: self.apuntes.push(apunte), ..self }
    }
}

/// An account with a name, which need not be its own alone, and a balance
/// in cents. It keeps every change made to the balance: their number bounds
/// how far the balance can have gone, so that it always fits.
#[derive(Debug, PartialEq)]
pub struct Cuenta {
    saldo: i128,
    nombre: String,
    apuntes: Vec<Apunte>,
}

impl View for Cuenta {
    type V = CuentaV;

    closed spec fn view(&self) -> CuentaV {
        CuentaV { nombre: self.nombre@, apuntes: self.apuntes@ }
    }
}

impl Cuenta {
    /// The stored balance is that of the changes made.
    pub closed spec fn wf(&self) -> bool {
        self.saldo == self@.saldo()
    }

    /// A new account with a balance of zero.
    pub fn new(nombre: &str) -> (c: Cuenta)
        ensures
            c.wf(),
            c@ == (CuentaV { nombre: nombre@, apuntes: Seq::empty() }),
            c@.saldo() == 0,
    {
        Cuenta { saldo: 0, nombre: nombre.to_owned(), apuntes: Vec::new() }
    }

    /// Adds `importe` to the balance and returns the new balance.
    pub fn incrementar_saldo(&mut self, importe: &i64) -> (r: i128)
        requires
            old(self).wf(),
        ensures
            final(self).wf(),
            final(self)@ == old(self)@.con_apunte(Apunte { lado: Lado::Debe, importe: *importe }),
            r == final(self)@.saldo(),
            r == old(self)@.saldo() + *importe,
    {
        let apunte = Apunte { lado: Lado::Debe, importe: *importe };
        proof {
            lema_suma_push(self.apuntes@, apunte, Lado::Debe);
            lema_suma_push(self.apuntes@, apunte, Lado::Haber);
        }
        self.apuntes.push(apunte);
        proof {
            assert(self.apuntes@.len() == self.apuntes.len());
            lema_sumas_caben(self.apuntes@);
        }
        self.saldo = self.saldo + *importe as i128;
        self.saldo
    }

    /// Takes `importe` from the balance and returns the new balance.
    pub fn reducir_saldo(&mut self, importe: &i64) -> (r: i128)
        requires
            old(self).wf(),
        ensures
            final(self).wf(),
            final(self)@ == old(self)@.con_apunte(Apunte { lado: Lado::Haber, importe: *importe }),
            r == final(self)@.saldo(),
            r == old(self)@.saldo() - *importe,
    {
        let apunte = Apunte { lado: Lado::Haber, importe: *importe };
        proof {
            lema_suma_push(self.apuntes@, apunte, Lado::Debe);
            lema_suma_push(self.apuntes@, apunte, Lado::Haber);
        }
        self.apuntes.push(apunte);
        proof {
            assert(self.apuntes@.len() == self.apuntes.len());
            lema_sumas_caben(self.apuntes@);
        }
        self.saldo = self.saldo - *importe as i128;
        self.saldo
    }

    /// The balance of the account, in cents.
    pub fn saldo(&self) -> (r: i128)
        requires
            self.wf(),
        ensures
            r == self@.saldo(),
    {
        self.saldo
    }

    /// A copy of the account's name.
    pub fn nombre(&self) -> (r: String)
        ensures
            r@ == self@.nombre,
    {
        self.nombre.clone()
    }
}

} // verus!
