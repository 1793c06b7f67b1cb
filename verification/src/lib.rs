//! Favourite dog pictures: URL validation and a SQLite-backed store of saved image URLs.

pub mod error;
pub mod recency;
pub mod record;
pub mod sqlite;
pub mod store;
pub mod text;
pub mod url;

pub use error::StoreError;
pub use record::SavedDog;
pub use store::{get_saved_dogs, save_dog, FavoritesStore};
pub use url::is_valid_dog_url;
