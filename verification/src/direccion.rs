//! Direcciones cardinales de la onda expansiva.

use vstd::prelude::*;

verus! {

/// Una dirección cardinal. Cada dirección corresponde a un paso unitario
/// `(dx, dy)` sobre la cuadrícula: la fila crece hacia abajo y la columna
/// hacia la derecha.
#[derive(Clone, Copy, PartialEq, Eq, Structural, Debug)]
pub enum Direccion {
    /// Hacia arriba: `(0, -1)`.
    Arriba,
    /// Hacia abajo: `(0, 1)`.
    Abajo,
    /// Hacia la izquierda: `(-1, 0)`.
    Izquierda,
    /// Hacia la derecha: `(1, 0)`.
    Derecha,
}

impl Direccion {
    /// El paso unitario `(dx, dy)` de la dirección.
    pub open spec fn paso(self) -> (int, int) {
        match self {
            Direccion::Arriba => (0int, -1int),
            Direccion::Abajo => (0int, 1int),
            Direccion::Izquierda => (-1int, 0int),
            Direccion::Derecha => (1int, 0int),
        }
    }
}

/// Avanzar un paso más multiplica el paso unitario una vez más: la igualdad
/// es lineal en cada dirección concreta.
pub proof fn lema_paso_lineal(d: Direccion, i: int)
    ensures
        d.paso().0 * (i + 1) == d.paso().0 * i + d.paso().0,
        d.paso().1 * (i + 1) == d.paso().1 * i + d.paso().1,
{
    match d {
        Direccion::Arriba => {},
        Direccion::Abajo => {},
        Direccion::Izquierda => {},
        Direccion::Derecha => {},
    }
}

} // verus!
