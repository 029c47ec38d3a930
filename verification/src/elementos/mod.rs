//! A simpler ledger, in which accounts go by their name and every movement
//! debits one account and credits another.

pub mod cuenta;
pub mod movimiento;
pub mod asiento;
pub mod cuadro_contable;

pub use self::asiento::Asiento;
pub use self::cuadro_contable::Cuadro;
pub use self::cuenta::{Activos, Cuenta, Masa, Pasivos, Patrimonios};
pub use self::movimiento::Movimiento;
