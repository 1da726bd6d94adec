pub mod card;
pub mod date;
pub mod movie;
pub mod reservation;
