//! Motor de detonación de bombas sobre un tablero cuadrado.
//!
//! El tablero contiene objetos (paredes, rocas, desvíos, enemigos y bombas);
//! detonar una bomba propaga una onda expansiva en las cuatro direcciones
//! cardinales, con desvíos, bloqueos, daño a enemigos deduplicado por origen
//! y reacciones en cadena. La semántica completa está dada por las funciones
//! de especificación de [`semantica`], y las leyes generales del motor están
//! demostradas en [`leyes`].

pub mod direccion;
pub mod objeto;
pub mod leyes;
pub mod semantica;
pub mod simbolos;
pub mod tablero;

pub use crate::direccion::Direccion;
pub use crate::objeto::Objeto;
pub use crate::objeto::VistaObjeto;
pub use crate::simbolos::convertir_simbolos;
pub use crate::tablero::Tablero;
