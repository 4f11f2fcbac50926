//! Proceso de minado: mineros que exploran las porciones de un mapa, se
//! informan lo que extrajeron en cada ronda y deciden quién entrega sus
//! pepitas acumuladas y quién las recibe.

pub mod mapa;
pub mod minero;
pub mod minero_net;
pub mod ronda;
pub mod leyes;
