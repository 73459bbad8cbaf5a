//! The words by which commands name directions, splits and layouts.

use crate::text::same;
use vstd::prelude::*;
use vstd::string::*;

verus! {

/// How a frame is split.
#[derive(Clone, Copy, Debug, PartialEq, Eq, Structural)]
pub enum SplitDir {
    Top,
    Bottom,
    Left,
    Right,
    Horizontal,
    Vertical,
    Explode,
}

/// A direction on the screen.
#[derive(Clone, Copy, Debug, PartialEq, Eq, Structural)]
pub enum Dir {
    Left,
    Down,
    Up,
    Right,
}

/// How a frame lays out its windows.
#[derive(Clone, Copy, Debug, PartialEq, Eq, Structural)]
pub enum LayoutMode {
    Max,
    Vertical,
    Horizontal,
    Grid,
}

/// The split that a word names.
pub open spec fn split_dir(s: Seq<char>) -> Option<SplitDir> {
    if s == "top"@ {
        Some(SplitDir::Top)
    } else if s == "bottom"@ {
        Some(SplitDir::Bottom)
    } else if s == "left"@ {
        Some(SplitDir::Left)
    } else if s == "right"@ {
        Some(SplitDir::Right)
    } else if s == "horizontal"@ {
        Some(SplitDir::Horizontal)
    } else if s == "vertical"@ {
        Some(SplitDir::Vertical)
    } else if s == "explode"@ {
        Some(SplitDir::Explode)
    } else {
        None
    }
}

/// The direction that a word names.
pub open spec fn direction(s: Seq<char>) -> Option<Dir> {
    if s == "left"@ {
        Some(Dir::Left)
    } else if s == "down"@ {
        Some(Dir::Down)
    } else if s == "up"@ {
        Some(Dir::Up)
    } else if s == "right"@ {
        Some(Dir::Right)
    } else {
        None
    }
}

/// The layout that a word names.
pub open spec fn layout_mode(s: Seq<char>) -> Option<LayoutMode> {
    if s == "max"@ {
        Some(LayoutMode::Max)
    } else if s == "vertical"@ {
        Some(LayoutMode::Vertical)
    } else if s == "horizontal"@ {
        Some(LayoutMode::Horizontal)
    } else if s == "grid"@ {
        Some(LayoutMode::Grid)
    } else {
        None
    }
}

impl SplitDir {
    /// Reads the name of a split.
    pub fn parse(s: &str) -> (r: Option<SplitDir>)
        ensures
            r == split_dir(s@),
    {
        if same(s, "top") {
            Some(SplitDir::Top)
        } else if same(s, "bottom") {
            Some(SplitDir::Bottom)
        } else if same(s, "left") {
            Some(SplitDir::Left)
        } else if same(s, "right") {
            Some(SplitDir::Right)
        } else if same(s, "horizontal") {
            Some(SplitDir::Horizontal)
        } else if same(s, "vertical") {
            Some(SplitDir::Vertical)
        } else if same(s, "explode") {
            Some(SplitDir::Explode)
        } else {
            None
        }
    }
}

impl Dir {
    /// Reads the name of a direction.
    pub fn parse(s: &str) -> (r: Option<Dir>)
        ensures
            r == direction(s@),
    {
        if same(s, "left") {
            Some(Dir::Left)
        } else if same(s, "down") {
            Some(Dir::Down)
        } else if same(s, "up") {
            Some(Dir::Up)
        } else if same(s, "right") {
            Some(Dir::Right)
        } else {
            None
        }
    }
}

impl LayoutMode {
    /// Reads the name of a layout.
    pub fn parse(s: &str) -> (r: Option<LayoutMode>)
        ensures
            r == layout_mode(s@),
    {
        if same(s, "max") {
            Some(LayoutMode::Max)
        } else if same(s, "vertical") {
            Some(LayoutMode::Vertical)
        } else if same(s, "horizontal") {
            Some(LayoutMode::Horizontal)
        } else if same(s, "grid") {
            Some(LayoutMode::Grid)
        } else {
            None
        }
    }
}

/// The word for a split.
pub open spec fn split_word(d: SplitDir) -> Seq<char> {
    match d {
        SplitDir::Top => "top"@,
        SplitDir::Bottom => "bottom"@,
        SplitDir::Left => "left"@,
        SplitDir::Right => "right"@,
        SplitDir::Horizontal => "horizontal"@,
        SplitDir::Vertical => "vertical"@,
        SplitDir::Explode => "explode"@,
    }
}

/// The word for a direction.
pub open spec fn dir_word(d: Dir) -> Seq<char> {
    match d {
        Dir::Left => "left"@,
        Dir::Down => "down"@,
        Dir::Up => "up"@,
        Dir::Right => "right"@,
    }
}

/// The word for a layout.
pub open spec fn layout_word(d: LayoutMode) -> Seq<char> {
    match d {
        LayoutMode::Max => "max"@,
        LayoutMode::Vertical => "vertical"@,
        LayoutMode::Horizontal => "horizontal"@,
        LayoutMode::Grid => "grid"@,
    }
}

/// Every split has its word, and no other word names it.
pub proof fn splits_have_words(d: SplitDir, word: Seq<char>)
    ensures
        split_dir(word) == Some(d) <==> word == split_word(d),
{
    reveal_strlit("top");
    assert("top"@.len() == 3);
    reveal_strlit("bottom");
    assert("bottom"@.len() == 6);
    reveal_strlit("left");
    assert("left"@.len() == 4);
    reveal_strlit("right");
    assert("right"@.len() == 5);
    reveal_strlit("horizontal");
    assert("horizontal"@.len() == 10);
    reveal_strlit("vertical");
    assert("vertical"@.len() == 8);
    reveal_strlit("explode");
    assert("explode"@.len() == 7);
}

/// Every direction has its word, and no other word names it.
pub proof fn directions_have_words(d: Dir, word: Seq<char>)
    ensures
        direction(word) == Some(d) <==> word == dir_word(d),
{
    reveal_strlit("left");
    assert("left"@.len() == 4);
    reveal_strlit("down");
    assert("down"@.len() == 4);
    reveal_strlit("up");
    assert("up"@.len() == 2);
    reveal_strlit("right");
    assert("right"@.len() == 5);
    assert("down"@[0] != "left"@[0]);
}

/// Every layout has its word, and no other word names it.
pub proof fn layouts_have_words(d: LayoutMode, word: Seq<char>)
    ensures
        layout_mode(word) == Some(d) <==> word == layout_word(d),
{
    reveal_strlit("max");
    assert("max"@.len() == 3);
    reveal_strlit("vertical");
    assert("vertical"@.len() == 8);
    reveal_strlit("horizontal");
    assert("horizontal"@.len() == 10);
    reveal_strlit("grid");
    assert("grid"@.len() == 4);
}

} // verus!
