//! Language values: a name, a category and a display color.

use vstd::prelude::*;

verus! {

/// A language category, governing default detectability.
#[derive(Clone, Copy, Debug, PartialEq, Eq, Structural, Hash)]
pub enum Category {
    /// Data files. Examples: JSON, YAML, XML, CSV.
    Data,
    /// Markup languages. Examples: HTML, Pug.
    Markup,
    /// Languages that define text patterns. Examples: Regex, ABNF.
    Pattern,
    /// Programming languages. Examples: Rust, C, Java.
    Programming,
    /// Prose. Examples: plain text, Markdown.
    Prose,
    /// Query languages. Examples: SQL, GraphQL.
    Query,
}

/// Data and Prose files never count toward language statistics.
pub open spec fn spec_detectable_by_default(c: Category) -> bool {
    !(c == Category::Data || c == Category::Prose)
}

impl Category {
    /// Whether files of this category may ever count toward language
    /// statistics.
    pub fn detectable_by_default(&self) -> (r: bool)
        ensures
            r == spec_detectable_by_default(*self),
    {
        match self {
            Category::Data | Category::Prose => false,
            _ => true,
        }
    }

    /// Parses the lowercase schema name of a category.
    pub fn parse(s: &str) -> (r: Result<Category, ParseError>)
        ensures
            r == spec_parse_category(s@),
    {
        if crate::text::str_eq(s, "data") {
            Ok(Category::Data)
        } else if crate::text::str_eq(s, "markup") {
            Ok(Category::Markup)
        } else if crate::text::str_eq(s, "pattern") {
            Ok(Category::Pattern)
        } else if crate::text::str_eq(s, "programming") {
            Ok(Category::Programming)
        } else if crate::text::str_eq(s, "prose") {
            Ok(Category::Prose)
        } else if crate::text::str_eq(s, "query") {
            Ok(Category::Query)
        } else {
            Err(ParseError)
        }
    }
}

/// Which category, if any, a schema name denotes.
pub open spec fn spec_parse_category(s: Seq<char>) -> Result<Category, ParseError> {
    if s == "data"@ {
        Ok(Category::Data)
    } else if s == "markup"@ {
        Ok(Category::Markup)
    } else if s == "pattern"@ {
        Ok(Category::Pattern)
    } else if s == "programming"@ {
        Ok(Category::Programming)
    } else if s == "prose"@ {
        Ok(Category::Prose)
    } else if s == "query"@ {
        Ok(Category::Query)
    } else {
        Err(ParseError)
    }
}

/// A name could not be read as a value of the expected shape.
#[derive(Clone, Copy, Debug, PartialEq, Eq, Structural)]
pub struct ParseError;

/// A language: its name, category and display color.
#[derive(Debug)]
pub struct LanguageOld {
    pub name: String,
    pub category: Category,
    pub color: String,
}

/// The mathematical value of a language.
pub struct LanguageView {
    pub name: Seq<char>,
    pub category: Category,
    pub color: Seq<char>,
}

impl View for LanguageOld {
    type V = LanguageView;

    open spec fn view(&self) -> LanguageView {
        LanguageView { name: self.name@, category: self.category, color: self.color@ }
    }
}

impl DeepView for LanguageOld {
    type V = LanguageView;

    open spec fn deep_view(&self) -> LanguageView {
        self.view()
    }
}

impl Clone for LanguageOld {
    fn clone(&self) -> (r: Self)
        ensures
            r@ == self@,
    {
        LanguageOld {
            name: self.name.clone(),
            category: self.category,
            color: self.color.clone(),
        }
    }
}

impl PartialEq for LanguageOld {
    fn eq(&self, other: &Self) -> (r: bool) {
        self.name == other.name && self.category == other.category && self.color == other.color
    }
}

impl vstd::std_specs::cmp::PartialEqSpecImpl for LanguageOld {
    open spec fn obeys_eq_spec() -> bool {
        true
    }

    open spec fn eq_spec(&self, other: &Self) -> bool {
        self@ == other@
    }
}

impl Eq for LanguageOld {

}

impl LanguageOld {
    /// The name of the language.
    pub fn name(&self) -> (r: &str)
        ensures
            r@ == self@.name,
    {
        self.name.as_str()
    }

    /// The category of the language.
    pub fn category(&self) -> (r: &Category)
        ensures
            *r == self@.category,
    {
        &self.category
    }

    /// The display color of the language, as a `#RRGGBB` string.
    pub fn color(&self) -> (r: &str)
        ensures
            r@ == self@.color,
    {
        self.color.as_str()
    }

    /// Reads the display color as red, green and blue components.
    pub fn color_rgb(&self) -> (r: Result<(u8, u8, u8), ParseError>)
        ensures
            r == spec_color_rgb(self@.color),
    {
        parse_hex_color(self.color.as_str())
    }
}

/// The value of a hexadecimal digit, or 16 for any other character.
pub open spec fn spec_hex_val(c: char) -> int {
    if '0' <= c <= '9' {
        c as int - 48
    } else if 'a' <= c <= 'f' {
        c as int - 87
    } else if 'A' <= c <= 'F' {
        c as int - 55
    } else {
        16
    }
}

pub open spec fn spec_is_hex(c: char) -> bool {
    spec_hex_val(c) < 16
}

/// The components of a `#RRGGBB` color string, read digit by digit.
pub open spec fn spec_color_rgb(color: Seq<char>) -> Result<(u8, u8, u8), ParseError> {
    if color.len() == 7 && color[0] == '#' && spec_is_hex(color[1]) && spec_is_hex(color[2])
        && spec_is_hex(color[3]) && spec_is_hex(color[4]) && spec_is_hex(color[5]) && spec_is_hex(
        color[6],
    ) {
        Ok(
            (
                (spec_hex_val(color[1]) * 16 + spec_hex_val(color[2])) as u8,
                (spec_hex_val(color[3]) * 16 + spec_hex_val(color[4])) as u8,
                (spec_hex_val(color[5]) * 16 + spec_hex_val(color[6])) as u8,
            ),
        )
    } else {
        Err(ParseError)
    }
}

/// The value of a hexadecimal digit, or 16 for any other character.
fn hex_val(c: char) -> (r: u32)
    ensures
        r == spec_hex_val(c),
{
    let v = c as u32;
    if 48 <= v && v <= 57 {
        v - 48
    } else if 97 <= v && v <= 102 {
        v - 87
    } else if 65 <= v && v <= 70 {
        v - 55
    } else {
        16
    }
}

/// Parses a `#RRGGBB` color string.
fn parse_hex_color(color: &str) -> (r: Result<(u8, u8, u8), ParseError>)
    ensures
        r == spec_color_rgb(color@),
{
    let n = color.unicode_len();
    if n != 7 {
        return Err(ParseError);
    }
    if color.get_char(0) != '#' {
        return Err(ParseError);
    }
    let d1 = hex_val(color.get_char(1));
    let d2 = hex_val(color.get_char(2));
    let d3 = hex_val(color.get_char(3));
    let d4 = hex_val(color.get_char(4));
    let d5 = hex_val(color.get_char(5));
    let d6 = hex_val(color.get_char(6));
    if d1 > 15 || d2 > 15 || d3 > 15 || d4 > 15 || d5 > 15 || d6 > 15 {
        return Err(ParseError);
    }
    let red = (d1 * 16 + d2) as u8;
    let green = (d3 * 16 + d4) as u8;
    let blue = (d5 * 16 + d6) as u8;
    Ok((red, green, blue))
}

} // verus!
