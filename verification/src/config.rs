//! The configuration the renderer consumes: art placement, layout choice,
//! and the ordered rows of labels and declarative values.

use vstd::prelude::*;

use crate::layout::Layout;
use crate::style::Style;
use crate::text::Text;

verus! {

/// Where pre-rendered art stands relative to the rendered output.
#[derive(Clone, Copy, Debug, PartialEq, Eq, Structural)]
pub enum ArtPosition {
    Off,
    Left,
    Top,
}

impl Default for ArtPosition {
    /// Art is left out unless the configuration asks for it.
    fn default() -> (r: Self)
        ensures
            r == ArtPosition::Off,
    {
        ArtPosition::Off
    }
}

/// The art file read when no path is configured.
pub fn default_art_path() -> (r: String)
    ensures
        r@ == "art.txt"@,
{
    String::from_str("art.txt")
}

/// A declarative description of one row's content source.
#[derive(Debug)]
pub enum Value {
    Separator,
    Const { text: Text },
    Command { cmd: String, args: Vec<String>, postfix: Option<Text>, style: Option<Style> },
    Nu { expr: String, postfix: Option<Text>, style: Option<Style> },
    Hostname { username: Option<Style>, hostname: Option<Style>, delimiter: Option<Text> },
    EnvVariable { name: String, style: Option<Style> },
}

/// One configured row: a label and the value description that will resolve
/// to its content.
#[derive(Debug)]
pub struct Info {
    pub label: Text,
    pub value: Value,
}

/// A whole run's configuration.
pub struct Config {
    pub art_layout: ArtPosition,
    pub art_path: String,
    pub layout: Layout,
    pub info: Vec<Info>,
}

} // verus!
