//! Themes: named styles, and a stack of themes where the top one wins.
use vstd::prelude::*;
use crate::style::Style;
use crate::strs::{owned, str_eq};

verus! {

broadcast use vstd::string::group_string_axioms;

/// A set of named styles; a later entry for a name shadows an earlier one.
#[derive(Debug, Clone)]
pub struct Theme {
    entries: Vec<(String, Style)>,
}

/// The entries of a theme as values.
pub open spec fn entries_view(v: Seq<(String, Style)>) -> Seq<(Seq<char>, Style)> {
    v.map_values(|e: (String, Style)| (e.0@, e.1))
}

/// The style that the last entry named `name` gives, scanning from the end.
pub open spec fn lookup(entries: Seq<(Seq<char>, Style)>, name: Seq<char>) -> Option<Style>
    decreases entries.len(),
{
    if entries.len() == 0 {
        None
    } else if entries.last().0 == name {
        Some(entries.last().1)
    } else {
        lookup(entries.drop_last(), name)
    }
}

impl View for Theme {
    type V = Seq<(Seq<char>, Style)>;

    closed spec fn view(&self) -> Seq<(Seq<char>, Style)> {
        entries_view(self.entries@)
    }
}

/// The names and styles of the default theme.
pub open spec fn default_entries() -> Seq<(Seq<char>, Style)> {
    let n = crate::style::null_style();
    seq![
        ("none"@, n),
        ("reset"@, n),
        ("dim"@, Style { dim: Some(true), ..n }),
        ("bold"@, Style { bold: Some(true), ..n }),
        ("b"@, Style { bold: Some(true), ..n }),
        ("italic"@, Style { italic: Some(true), ..n }),
        ("i"@, Style { italic: Some(true), ..n }),
        ("underline"@, Style { underline: Some(true), ..n }),
        ("u"@, Style { underline: Some(true), ..n }),
        ("blink"@, Style { blink: Some(true), ..n }),
        ("reverse"@, Style { reverse: Some(true), ..n }),
        ("strike"@, Style { strike: Some(true), ..n }),
        ("s"@, Style { strike: Some(true), ..n })
    ]
}

fn entry(name: &str, s: Style) -> (r: (String, Style))
    ensures
        r.0@ == name@,
        r.1 == s,
{
    (owned(name), s)
}

impl Theme {
    /// A theme with no styles.
    pub fn empty() -> (r: Self)
        ensures
            r@ == Seq::<(Seq<char>, Style)>::empty(),
    {
        Theme { entries: Vec::new() }
    }

    /// The default theme: the plain attribute names (`bold`, `dim`, `italic`, ...).
    pub fn default_theme() -> (r: Self)
        ensures
            r@ == default_entries(),
    {
        let n = Style::new();
        let mut v: Vec<(String, Style)> = Vec::new();
        v.push(entry("none", n));
        v.push(entry("reset", n));
        v.push(entry("dim", n.with_dim(true)));
        v.push(entry("bold", n.with_bold(true)));
        v.push(entry("b", n.with_bold(true)));
        v.push(entry("italic", n.with_italic(true)));
        v.push(entry("i", n.with_italic(true)));
        v.push(entry("underline", n.with_underline(true)));
        v.push(entry("u", n.with_underline(true)));
        v.push(entry("blink", n.with_blink(true)));
        v.push(entry("reverse", n.with_reverse(true)));
        v.push(entry("strike", n.with_strike(true)));
        v.push(entry("s", n.with_strike(true)));
        proof {
            reveal_strlit("none");
            reveal_strlit("reset");
            reveal_strlit("dim");
            reveal_strlit("bold");
            reveal_strlit("b");
            reveal_strlit("italic");
            reveal_strlit("i");
            reveal_strlit("underline");
            reveal_strlit("u");
            reveal_strlit("blink");
            reveal_strlit("reverse");
            reveal_strlit("strike");
            reveal_strlit("s");
        }
        let t = Theme { entries: v };
        assert(t@ =~= default_entries());
        t
    }

    /// The theme of a name: `Some` for `"default"`, `None` for a name not known.
    pub fn from_name(name: &str) -> (r: Option<Self>)
        ensures
            r.is_some() == (name@ == "default"@),
            r.is_some() ==> r.unwrap()@ == default_entries(),
    {
        if str_eq(name, "default") {
            Some(Theme::default_theme())
        } else {
            None
        }
    }

    /// Add (or replace) a named style.
    pub fn add_style(&mut self, name: &str, style: Style)
        ensures
            final(self)@ == old(self)@.push((name@, style)),
    {
        let e = entry(name, style);
        self.entries.push(e);
        assert(self@ =~= old(self)@.push((name@, style)));
    }

    /// The style of a name, if the theme has one.
    pub fn get_style(&self, name: &str) -> (r: Option<Style>)
        ensures
            r == lookup(self@, name@),
    {
        let mut i: usize = self.entries.len();
        assert(self@.take(i as int) =~= self@);
        while i > 0
            invariant
                i <= self.entries.len(),
                lookup(self@, name@) == lookup(self@.take(i as int), name@),
            decreases i,
        {
            let e = &self.entries[i - 1];
            proof {
                assert(self@.take(i as int).last() == (e.0@, e.1));
                assert(self@.take(i as int).drop_last() =~= self@.take(i - 1));
            }
            if str_eq(e.0.as_str(), name) {
                return Some(e.1);
            }
            i = i - 1;
        }
        None
    }

    /// A copy of the theme.
    pub fn copy(&self) -> (r: Self)
        ensures
            r@ == self@,
    {
        let mut v: Vec<(String, Style)> = Vec::new();
        let mut i: usize = 0;
        while i < self.entries.len()
            invariant
                i <= self.entries.len(),
                entries_view(v@) =~= self@.take(i as int),
            decreases self.entries.len() - i,
        {
            let e = &self.entries[i];
            v.push((e.0.clone(), e.1));
            assert(self@.take(i + 1) =~= self@.take(i as int).push(self@[i as int]));
            i = i + 1;
        }
        assert(self@.take(i as int) =~= self@);
        Theme { entries: v }
    }
}

impl Default for Theme {
    fn default() -> (r: Self)
        ensures
            r@ == default_entries(),
    {
        Theme::default_theme()
    }
}

/// The error of popping the base theme of a stack.
#[derive(Debug, Clone, Copy, PartialEq, Eq, Structural)]
pub enum ThemeError {
    /// The base theme cannot be popped.
    NoThemeToPop,
}

/// A stack of themes; a style is looked up from the top theme down.
#[derive(Debug)]
pub struct ThemeStack {
    themes: Vec<Theme>,
}

/// The themes of a stack as values, base first.
pub open spec fn themes_view(v: Seq<Theme>) -> Seq<Seq<(Seq<char>, Style)>> {
    v.map_values(|t: Theme| t@)
}

/// The style of a name in a stack of themes, the top theme first.
pub open spec fn stack_lookup(themes: Seq<Seq<(Seq<char>, Style)>>, name: Seq<char>) -> Option<Style>
    decreases themes.len(),
{
    if themes.len() == 0 {
        None
    } else {
        match lookup(themes.last(), name) {
            Some(s) => Some(s),
            None => stack_lookup(themes.drop_last(), name),
        }
    }
}

impl View for ThemeStack {
    type V = Seq<Seq<(Seq<char>, Style)>>;

    closed spec fn view(&self) -> Seq<Seq<(Seq<char>, Style)>> {
        themes_view(self.themes@)
    }
}

impl ThemeStack {
    /// A stack always holds its base theme.
    #[verifier::type_invariant]
    spec fn holds_base(self) -> bool {
        self.themes@.len() >= 1
    }

    /// A stack holding one base theme.
    pub fn new(theme: Theme) -> (r: Self)
        ensures
            r@ == seq![theme@],
    {
        let mut v: Vec<Theme> = Vec::new();
        v.push(theme);
        let r = ThemeStack { themes: v };
        assert(r@ =~= seq![theme@]);
        r
    }

    /// Number of themes on the stack.
    pub fn depth(&self) -> (r: usize)
        ensures
            r == self@.len(),
            r >= 1,
    {
        proof {
            use_type_invariant(self);
        }
        self.themes.len()
    }

    /// Push a theme on top.
    pub fn push_theme(&mut self, theme: Theme)
        ensures
            final(self)@ == old(self)@.push(theme@),
    {
        let mut v = self.theme_copies();
        v.push(theme);
        assert(themes_view(v@) =~= old(self)@.push(theme@));
        *self = ThemeStack { themes: v };
    }

    /// Pop the top theme; the base theme stays and popping it is an error.
    pub fn pop_theme(&mut self) -> (r: Result<(), ThemeError>)
        ensures
            old(self)@.len() <= 1 ==> r is Err && final(self)@ == old(self)@,
            old(self)@.len() > 1 ==> r is Ok && final(self)@ == old(self)@.drop_last(),
    {
        proof {
            use_type_invariant(&*self);
        }
        if self.themes.len() <= 1 {
            return Err(ThemeError::NoThemeToPop);
        }
        let mut v = self.theme_copies();
        let _ = v.pop();
        assert(themes_view(v@) =~= old(self)@.drop_last());
        *self = ThemeStack { themes: v };
        Ok(())
    }

    /// The style of a name, from the top theme down.
    pub fn get_style(&self, name: &str) -> (r: Option<Style>)
        ensures
            r == stack_lookup(self@, name@),
    {
        let mut i: usize = self.themes.len();
        assert(self@.take(i as int) =~= self@);
        while i > 0
            invariant
                i <= self.themes.len(),
                stack_lookup(self@, name@) == stack_lookup(self@.take(i as int), name@),
            decreases i,
        {
            proof {
                assert(self@.take(i as int).last() == self.themes@[i - 1]@);
                assert(self@.take(i as int).drop_last() =~= self@.take(i - 1));
            }
            let found = self.themes[i - 1].get_style(name);
            if found.is_some() {
                return found;
            }
            i = i - 1;
        }
        None
    }

    /// A copy of the stack.
    pub fn copy(&self) -> (r: Self)
        ensures
            r@ == self@,
    {
        proof {
            use_type_invariant(self);
        }
        let v = self.theme_copies();
        ThemeStack { themes: v }
    }

    /// Copies of the themes, base first.
    fn theme_copies(&self) -> (v: Vec<Theme>)
        ensures
            themes_view(v@) == self@,
            v@.len() == self@.len(),
            v@.len() >= 1,
    {
        proof {
            use_type_invariant(self);
        }
        let mut v: Vec<Theme> = Vec::new();
        let mut i: usize = 0;
        while i < self.themes.len()
            invariant
                i <= self.themes.len(),
                themes_view(v@) =~= self@.take(i as int),
            decreases self.themes.len() - i,
        {
            let t = self.themes[i].copy();
            v.push(t);
            assert(self@.take(i + 1) =~= self@.take(i as int).push(self@[i as int]));
            i = i + 1;
        }
        assert(self@.take(i as int) =~= self@);
        v
    }
}

impl Clone for ThemeStack {
    fn clone(&self) -> (r: Self)
        ensures
            r@ == self@,
    {
        self.copy()
    }
}

impl Default for ThemeStack {
    fn default() -> (r: Self)
        ensures
            r@ == seq![default_entries()],
    {
        ThemeStack::new(Theme::default_theme())
    }
}


/// A pop after a push succeeds (the stack then holds more than its base theme) and
/// leaves the stack as it was before the push.
pub proof fn law_pop_after_push(stack: Seq<Seq<(Seq<char>, Style)>>, theme: Seq<(Seq<char>, Style)>)
    requires
        stack.len() >= 1,
    ensures
        stack.push(theme).len() > 1,
        stack.push(theme).drop_last() == stack,
{
    assert(stack.push(theme).drop_last() =~= stack);
}

} // verus!
