pub mod card_service;
pub mod movie_service;
