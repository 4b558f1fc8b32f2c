//! RSS 2.0 and Atom feeds as rows of `{title, link, source, summary, image,
//! published}`. A document that is not a feed is refused; a malformed one yields
//! fewer rows.
//!
//! Items are split on `<item` or `<entry`; a field is the first matching
//! element, with CDATA unwrapped, entities decoded, tags stripped and white
//! space collapsed. Known limitation: an `<item` or `<title` inside a CDATA
//! description can confuse the splitter, which costs that item its summary or
//! title.
pub mod dated;
pub mod dates;
pub mod escaping;
pub mod images;
pub mod items;
pub mod markup;
pub mod names;
pub mod reading;
pub mod rows;
pub mod size;
