//! Grid-based arcade simulations: a falling-block stacking engine, a snake
//! and a shooter. Each one is a state-mutation core that a host loop drives
//! once per tick and once per input event.

pub mod chance;
pub mod point;
pub mod snake;
pub mod space_invaders;
pub mod tetris;
