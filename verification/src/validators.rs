pub mod card_validator;
pub mod common_validators;
pub mod date_validators;
pub mod movie_validator;
pub mod reservation_validator;
