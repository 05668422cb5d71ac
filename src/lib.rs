//! Reads free-form recipe ingredient lines, such as `1¼ cups / 155.5 grams flour, sifted`,
//! into a name, amounts of units with exact rational values, and a modifier; writes them
//! back as text; and normalizes the structured recipe data of web pages.

pub mod format;
pub mod grammar;
pub mod ingredient;
pub mod laws;
pub mod number;
pub mod recipe;

pub use ingredient::{from_str, fraction_number, parse_amount, parse_ingredient, v_frac_to_num};
pub use ingredient::{Amount, Ingredient, ParseError};
pub use number::Number;
pub use recipe::{extract_ld, normalize_ld_json, scrape_extracted, scrape_from_html, scrape_from_json};
pub use recipe::{ScrapeError, ScrapedRecipe};
