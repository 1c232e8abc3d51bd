//! A grid-based Snake game: the segment-list movement model of the snake and
//! the game-state rules (movement, eating, collisions, food placement and the
//! fixed-timestep clock), each with a verified contract.

pub mod game;
pub mod snake;
