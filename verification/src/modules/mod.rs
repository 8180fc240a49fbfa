pub mod calendar;
pub mod pokeapi;
pub mod weather;
