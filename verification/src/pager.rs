//! Pagers: where long output is shown a page at a time. The choice of the system pager's
//! command is made here; running it is left to the program.
use vstd::prelude::*;
use vstd::cell::invcell::InvCell;
use vstd::predicate::Predicate;
use crate::strs::{push_str, str_chars, split_on_white, split_on_white_spec, string_from_chars, ends_with_spec, chars_end_with, chars_contain};

verus! {

broadcast use vstd::string::group_string_axioms;

/// Shows content to the user.
pub trait Pager {
    /// Show the content.
    fn show(&self, content: &str) -> Result<(), std::io::Error>;
}

/// Any text may be held.
struct AnyText;

impl Predicate<String> for AnyText {
    open spec fn predicate(&self, v: String) -> bool {
        true
    }
}

/// A pager that keeps what it is shown, for tests and for reading back.
pub struct BufferPager {
    content: InvCell<String, AnyText>,
}

impl BufferPager {
    /// A pager that holds nothing yet.
    pub fn new() -> (r: Self) {
        BufferPager { content: InvCell::new(String::new(), Ghost(AnyText)) }
    }

    /// All that the pager has been shown, in order.
    pub fn get_content(&self) -> (r: String) {
        let s = self.content.replace(String::new());
        let c = s.clone();
        let _ = self.content.replace(s);
        c
    }

    /// Forget what the pager has been shown.
    pub fn clear(&self) {
        let _ = self.content.replace(String::new());
    }
}

impl Pager for BufferPager {
    fn show(&self, content: &str) -> (r: Result<(), std::io::Error>)
        ensures
            r is Ok,
    {
        let mut s = self.content.replace(String::new());
        push_str(&mut s, content);
        let _ = self.content.replace(s);
        Ok(())
    }
}

/// Whether a character sequence holds `R`.
pub open spec fn holds_r(s: Seq<char>) -> bool {
    exists|i: int| 0 <= i < s.len() && s[i] == 'R'
}

/// The `less` option that keeps colours.
pub open spec fn raw_flag() -> Seq<char> {
    seq!['-', 'R']
}

/// The pager command that a `PAGER` value names: its first word, with the other words
/// as arguments, and `-R` added for a `less` command when styles are kept and no
/// argument holds an `R` already; none for a value of white space only.
pub open spec fn pager_from_env_spec(pager: Seq<char>, styles: bool) -> Option<(Seq<char>, Seq<Seq<char>>)> {
    let words = split_on_white_spec(pager);
    if words.len() == 0 {
        None
    } else {
        let cmd = words[0];
        let args = words.drop_first();
        if styles && ends_with_spec(cmd, seq!['l', 'e', 's', 's']) && !(exists|k: int| 0 <= k < args.len() && holds_r(#[trigger] args[k])) {
            Some((cmd, args.push(raw_flag())))
        } else {
            Some((cmd, args))
        }
    }
}

/// A command with its arguments, as values.
pub open spec fn command_view(c: Option<(String, Vec<String>)>) -> Option<(Seq<char>, Seq<Seq<char>>)> {
    match c {
        Some(x) => Some((x.0@, x.1@.map_values(|a: String| a@))),
        None => None,
    }
}

/// The pager command that a `PAGER` value names (see `pager_from_env_spec`).
pub fn pager_from_env(pager: &str, styles: bool) -> (r: Option<(String, Vec<String>)>)
    ensures
        command_view(r) == pager_from_env_spec(pager@, styles),
{
    let cs = str_chars(pager);
    let words = split_on_white(cs.as_slice());
    let ghost ws = split_on_white_spec(pager@);
    if words.len() == 0 {
        return None;
    }
    let cmd = string_from_chars(words[0].as_slice());
    let mut args: Vec<String> = Vec::new();
    let mut any_r = false;
    let mut k: usize = 1;
    while k < words.len()
        invariant
            1 <= k <= words@.len(),
            words@.len() == ws.len(),
            forall|j: int| 0 <= j < words@.len() ==> #[trigger] words@[j]@ == ws[j],
            args@.map_values(|a: String| a@) == ws.drop_first().take(k - 1),
            any_r == (exists|j: int| 0 <= j < k - 1 && holds_r(#[trigger] ws.drop_first()[j])),
        decreases words.len() - k,
    {
        let a = string_from_chars(words[k].as_slice());
        let has = chars_contain(words[k].as_slice(), 'R');
        proof {
            assert(ws.drop_first()[k - 1] == words@[k as int]@);
            if has {
                assert(holds_r(ws.drop_first()[k - 1]));
            }
        }
        any_r = any_r || has;
        let ghost before = args@.map_values(|a: String| a@);
        args.push(a);
        assert(args@.map_values(|a: String| a@) =~= before.push(ws.drop_first()[k - 1]));
        assert(ws.drop_first().take(k as int) =~= ws.drop_first().take(k - 1).push(ws.drop_first()[k - 1]));
        k = k + 1;
    }
    assert(ws.drop_first().take(k - 1) =~= ws.drop_first());
    let less = ['l', 'e', 's', 's'];
    let is_less = chars_end_with(words[0].as_slice(), &less);
    assert(less@ =~= seq!['l', 'e', 's', 's']);
    if styles && is_less && !any_r {
        let mut flag = String::new();
        flag.push('-');
        flag.push('R');
        assert(flag@ =~= raw_flag());
        let ghost before = args@.map_values(|a: String| a@);
        args.push(flag);
        assert(args@.map_values(|a: String| a@) =~= before.push(raw_flag()));
    }
    Some((cmd, args))
}

/// The pager command when `PAGER` names none: `less` (with `-R` when styles are kept)
/// where it exists, else `more` where it exists, else none.
pub fn fallback_pager(styles: bool, less_exists: bool, more_exists: bool) -> (r: Option<(String, Vec<String>)>)
    ensures
        less_exists ==> command_view(r) == Some((seq!['l', 'e', 's', 's'], if styles { seq![raw_flag()] } else { Seq::<Seq<char>>::empty() })),
        !less_exists && more_exists ==> command_view(r) == Some((seq!['m', 'o', 'r', 'e'], Seq::<Seq<char>>::empty())),
        !less_exists && !more_exists ==> r is None,
{
    let mut args: Vec<String> = Vec::new();
    if less_exists {
        let mut cmd = String::new();
        push_str(&mut cmd, "less");
        proof { reveal_strlit("less"); }
        assert(cmd@ =~= seq!['l', 'e', 's', 's']);
        if styles {
            let mut flag = String::new();
            flag.push('-');
            flag.push('R');
            assert(flag@ =~= raw_flag());
            args.push(flag);
        }
        assert(args@.map_values(|a: String| a@) =~= if styles { seq![raw_flag()] } else { Seq::<Seq<char>>::empty() });
        Some((cmd, args))
    } else if more_exists {
        let mut cmd = String::new();
        push_str(&mut cmd, "more");
        proof { reveal_strlit("more"); }
        assert(cmd@ =~= seq!['m', 'o', 'r', 'e']);
        assert(args@.map_values(|a: String| a@) =~= Seq::<Seq<char>>::empty());
        Some((cmd, args))
    } else {
        None
    }
}

} // verus!
