//! Hyperlinks in streamed output (OSC 8): the text of a segment with a link target is
//! wrapped in the sequences that open and close the link, and each target gets an id
//! that the console keeps for it.
use vstd::prelude::*;
use crate::color::ColorSystem;
use crate::segment::{Segment, SegView, segs_view, links_view, link_of};
use crate::sgr::{StyleState, control_code, default_state, state_of, sgr_diff_spec, state_of_style, sgr_diff, push_control, segment_piece};
use crate::style::join_codes;
use crate::strs::{decimal_spec, push_str, str_eq, usize_to_string};

verus! {

broadcast use vstd::string::group_string_axioms;

/// The position of a target among the targets seen, if it is there.
pub open spec fn url_index(urls: Seq<Seq<char>>, url: Seq<char>) -> Option<int>
    decreases urls.len(),
{
    if urls.len() == 0 {
        None
    } else if urls[0] == url {
        Some(0)
    } else {
        match url_index(urls.drop_first(), url) {
            Some(k) => Some(k + 1),
            None => None,
        }
    }
}

/// The id of a target: `richrs-` and its position among the targets seen, counted from
/// one (a target not seen yet comes after them).
pub open spec fn link_id_spec(urls: Seq<Seq<char>>, url: Seq<char>) -> Seq<char> {
    "richrs-"@ + decimal_spec((match url_index(urls, url) {
        Some(k) => k + 1,
        None => urls.len() + 1 as int,
    }) as nat)
}

/// The targets seen, with a new one added at the end.
pub open spec fn add_url(urls: Seq<Seq<char>>, link: Option<Seq<char>>) -> Seq<Seq<char>> {
    match link {
        Some(u) => if url_index(urls, u) is None { urls.push(u) } else { urls },
        None => urls,
    }
}

/// The sequence that closes a hyperlink.
pub open spec fn link_close() -> Seq<char> {
    "\x1b]8;;\x1b\\"@
}

/// The sequence that opens a hyperlink to a target (nothing for no target).
pub open spec fn link_open(urls: Seq<Seq<char>>, link: Option<Seq<char>>) -> Seq<char> {
    match link {
        Some(u) => "\x1b]8;id="@ + link_id_spec(urls, u) + seq![';'] + u + "\x1b\\"@,
        None => Seq::empty(),
    }
}

/// The switch from the link that is open to the link of the next text: the open one
/// closed and the new one opened, nothing when they are the same.
pub open spec fn link_switch(current: Option<Seq<char>>, link: Option<Seq<char>>, urls: Seq<Seq<char>>) -> Seq<char> {
    if link == current {
        Seq::empty()
    } else {
        (if current is Some { link_close() } else { Seq::empty() }) + link_open(urls, link)
    }
}

/// The output of segments with their link targets, as `stream_from` writes them, with
/// each text segment's link switched to before its text and an open link closed at
/// the end (before the reset); and the targets seen afterwards.
pub open spec fn link_stream_from(
    segs: Seq<SegView>,
    links: Seq<Option<Seq<char>>>,
    sys: Option<ColorSystem>,
    cur: StyleState,
    used: bool,
    current: Option<Seq<char>>,
    urls: Seq<Seq<char>>,
) -> (Seq<char>, Seq<Seq<char>>)
    decreases segs.len(),
{
    if segs.len() == 0 {
        (
            (if current is Some { link_close() } else { Seq::empty() })
                + (if sys is Some && used && cur != default_state() { "\x1b[0m"@ } else { Seq::empty() }),
            urls,
        )
    } else {
        let s = segs[0];
        let l = if links.len() > 0 { links[0] } else { None };
        match s.2 {
            Some(c) => {
                let rest = link_stream_from(segs.drop_first(), links.drop_first(), sys, cur, used, current, urls);
                (control_code(c) + rest.0, rest.1)
            },
            None => {
                let sw = link_switch(current, l, urls);
                let urls1 = if l == current { urls } else { add_url(urls, l) };
                match sys {
                    None => {
                        let rest = link_stream_from(segs.drop_first(), links.drop_first(), sys, cur, used, l, urls1);
                        (sw + s.0 + rest.0, rest.1)
                    },
                    Some(system) => {
                        let t = state_of(s.1);
                        let d = join_codes(sgr_diff_spec(cur, t, system));
                        let rest = link_stream_from(segs.drop_first(), links.drop_first(), sys, t, used || d.len() > 0, l, urls1);
                        (sw + (if d.len() > 0 { "\x1b["@ + d + seq!['m'] } else { Seq::empty() }) + s.0 + rest.0, rest.1)
                    },
                }
            },
        }
    }
}

/// The output of segments with their links written to a fresh terminal, with the
/// targets seen so far; and the targets seen afterwards.
pub open spec fn link_stream_spec(segs: Seq<SegView>, links: Seq<Option<Seq<char>>>, sys: Option<ColorSystem>, urls: Seq<Seq<char>>) -> (Seq<char>, Seq<Seq<char>>) {
    link_stream_from(segs, links, sys, default_state(), false, None, urls)
}

/// Targets as values.
pub open spec fn urls_view(v: Seq<String>) -> Seq<Seq<char>> {
    v.map_values(|u: String| u@)
}

fn find_url(urls: &Vec<String>, url: &str) -> (r: Option<usize>)
    ensures
        r matches Some(k) ==> url_index(urls_view(urls@), url@) == Some(k as int) && k < urls@.len(),
        r is None ==> url_index(urls_view(urls@), url@) is None,
{
    let mut i: usize = 0;
    assert(urls_view(urls@).skip(0) =~= urls_view(urls@));
    while i < urls.len()
        invariant
            i <= urls@.len(),
            url_index(urls_view(urls@), url@) == match url_index(urls_view(urls@).skip(i as int), url@) {
                Some(k) => Some(k + i),
                None => None::<int>,
            },
        decreases urls.len() - i,
    {
        let ghost sk = urls_view(urls@).skip(i as int);
        proof {
            assert(sk.drop_first() =~= urls_view(urls@).skip(i + 1));
            assert(sk[0] == urls@[i as int]@);
            assert(sk.len() > 0);
        }
        if str_eq(urls[i].as_str(), url) {
            return Some(i);
        }
        i = i + 1;
    }
    assert(urls_view(urls@).skip(i as int).len() == 0);
    None
}

/// A link target as a value.
pub open spec fn opt_url(l: Option<String>) -> Option<Seq<char>> {
    match l {
        Some(u) => Some(u@),
        None => None,
    }
}

fn same_link(a: &Option<String>, b: &Option<String>) -> (r: bool)
    ensures
        r == (opt_url(*a) == opt_url(*b)),
{
    match (a, b) {
        (Some(x), Some(y)) => str_eq(x.as_str(), y.as_str()),
        (None, None) => true,
        _ => false,
    }
}

fn copy_link(l: &Option<String>) -> (r: Option<String>)
    ensures
        opt_url(r) == opt_url(*l),
{
    match l {
        Some(u) => Some(u.clone()),
        None => None,
    }
}

/// Close the link that is open (if any) and open the new one (if any), noting its
/// target among those seen.
fn push_link_switch(out: &mut String, current: &Option<String>, link: &Option<String>, urls: &mut Vec<String>)
    requires
        opt_url(*current) != opt_url(*link),
    ensures
        final(out)@ == old(out)@ + link_switch(opt_url(*current), opt_url(*link), urls_view(old(urls)@)),
        urls_view(final(urls)@) == add_url(urls_view(old(urls)@), opt_url(*link)),
{
    let ghost u0 = urls_view(urls@);
    let ghost o0 = out@;
    proof {
        reveal_strlit("\x1b]8;;\x1b\\");
        reveal_strlit("\x1b]8;id=richrs-");
        reveal_strlit("richrs-");
        reveal_strlit("\x1b]8;id=");
        reveal_strlit("\x1b\\");
    }
    if current.is_some() {
        push_str(out, "\x1b]8;;\x1b\\");
    }
    let ghost o1 = out@;
    assert(o1 == o0 + (if opt_url(*current) is Some { link_close() } else { Seq::<char>::empty() }));
    match link {
        Some(u) => {
            let len0 = urls.len();
            let n = match find_url(urls, u.as_str()) {
                Some(k) => {
                    assert(url_index(u0, u@) == Some(k as int));
                    k + 1
                },
                None => {
                    urls.push(u.clone());
                    assert(urls_view(urls@) =~= u0.push(u@));
                    assert(url_index(u0, u@) is None);
                    assert(urls@.len() == u0.len() + 1);
                    urls.len()
                },
            };
            assert(n as int == match url_index(u0, u@) { Some(k) => k + 1, None => u0.len() + 1 as int });
            assert(link_id_spec(u0, u@) == "richrs-"@ + decimal_spec(n as nat));
            push_str(out, "\x1b]8;id=richrs-");
            let d = usize_to_string(n);
            push_str(out, d.as_str());
            out.push(';');
            push_str(out, u.as_str());
            push_str(out, "\x1b\\");
            assert(out@ =~= o1 + link_open(u0, opt_url(*link)));
        },
        None => {
            assert(out@ =~= o1 + link_open(u0, opt_url(*link)));
        },
    }
}

/// Stream segments with their links, the console's targets seen so far in `urls`.
#[verifier::rlimit(60)]
#[verifier::spinoff_prover]
pub fn link_stream_segments(segs: &Vec<Segment>, sys: Option<ColorSystem>, urls: &mut Vec<String>) -> (r: String)
    ensures
        ({
            let res = link_stream_spec(segs_view(segs@), links_view(segs@), sys, urls_view(old(urls)@));
            r@ == res.0 && urls_view(final(urls)@) == res.1
        }),
{
    let mut out = String::new();
    let mut cur = state_of_style(None);
    let mut used = false;
    let mut current: Option<String> = None;
    let ghost all = segs_view(segs@);
    let ghost lall = links_view(segs@);
    let ghost full = link_stream_spec(all, lall, sys, urls_view(urls@));
    let mut i: usize = 0;
    assert(all.skip(0) =~= all);
    assert(lall.skip(0) =~= lall);
    while i < segs.len()
        invariant
            i <= segs.len(),
            all == segs_view(segs@),
            lall == links_view(segs@),
            out@ + link_stream_from(all.skip(i as int), lall.skip(i as int), sys, cur, used, opt_url(current), urls_view(urls@)).0 == full.0,
            link_stream_from(all.skip(i as int), lall.skip(i as int), sys, cur, used, opt_url(current), urls_view(urls@)).1 == full.1,
        decreases segs.len() - i,
    {
        let seg = &segs[i];
        let ghost before = out@;
        let ghost rest = all.skip(i as int);
        let ghost lrest = lall.skip(i as int);
        let ghost u0 = urls_view(urls@);
        let ghost c0 = opt_url(current);
        let ghost cur0 = cur;
        let ghost used0 = used;
        proof {
            assert(rest[0] == (seg.text@, seg.style, seg.control));
            assert(lrest[0] == link_of(*seg));
            assert(rest.drop_first() =~= all.skip(i + 1));
            assert(lrest.drop_first() =~= lall.skip(i + 1));
        }
        match seg.control {
            Some(c) => {
                push_control(&mut out, c);
            },
            None => {
                if !same_link(&current, &seg.link) {
                    push_link_switch(&mut out, &current, &seg.link, urls);
                    current = copy_link(&seg.link);
                }
                assert(opt_url(current) == link_of(*seg));
                match sys {
                    None => {
                        push_str(&mut out, seg.text.as_str());
                    },
                    Some(system) => {
                        let target = state_of_style(seg.style);
                        let diff = sgr_diff(cur, target, system);
                        if !diff.as_str().is_empty() {
                            push_str(&mut out, "\x1b[");
                            push_str(&mut out, diff.as_str());
                            out.push('m');
                            used = true;
                        }
                        push_str(&mut out, seg.text.as_str());
                        cur = target;
                        proof {
                            reveal_strlit("\x1b[");
                            let d = join_codes(sgr_diff_spec(cur0, target, system));
                            assert(used == (used0 || d.len() > 0));
                        }
                    },
                }
            },
        }
        proof {
            let r1 = link_stream_from(all.skip(i + 1), lall.skip(i + 1), sys, cur, used, opt_url(current), urls_view(urls@));
            let r0 = link_stream_from(rest, lrest, sys, cur0, used0, c0, u0);
            assert(out@ + r1.0 =~= before + r0.0);
            assert(r1.1 == r0.1);
        }
        i = i + 1;
    }
    let ghost before = out@;
    assert(all.skip(i as int).len() == 0);
    if current.is_some() {
        push_str(&mut out, "\x1b]8;;\x1b\\");
    }
    if sys.is_some() && used && cur != state_of_style(None) {
        push_str(&mut out, "\x1b[0m");
    }
    proof {
        reveal_strlit("\x1b]8;;\x1b\\");
        reveal_strlit("\x1b[0m");
    }
    assert(out@ =~= full.0);
    out
}


/// The output of segments written one by one (each text in its style's own codes),
/// with each text segment's link switched to before it and an open link closed at the
/// end; and the targets seen afterwards.
pub open spec fn link_mode_from(
    segs: Seq<SegView>,
    links: Seq<Option<Seq<char>>>,
    sys: Option<ColorSystem>,
    current: Option<Seq<char>>,
    urls: Seq<Seq<char>>,
) -> (Seq<char>, Seq<Seq<char>>)
    decreases segs.len(),
{
    if segs.len() == 0 {
        (if current is Some { link_close() } else { Seq::empty() }, urls)
    } else {
        let s = segs[0];
        let l = if links.len() > 0 { links[0] } else { None };
        match s.2 {
            Some(c) => {
                let rest = link_mode_from(segs.drop_first(), links.drop_first(), sys, current, urls);
                (control_code(c) + rest.0, rest.1)
            },
            None => {
                let urls1 = if l == current { urls } else { add_url(urls, l) };
                let rest = link_mode_from(segs.drop_first(), links.drop_first(), sys, l, urls1);
                (link_switch(current, l, urls) + segment_piece(s, sys) + rest.0, rest.1)
            },
        }
    }
}

/// Write segments one by one with their links, the console's targets seen so far in
/// `urls`.
#[verifier::rlimit(60)]
#[verifier::spinoff_prover]
pub fn link_mode_segments(segs: &Vec<Segment>, sys: Option<ColorSystem>, urls: &mut Vec<String>) -> (r: String)
    ensures
        ({
            let res = link_mode_from(segs_view(segs@), links_view(segs@), sys, None, urls_view(old(urls)@));
            r@ == res.0 && urls_view(final(urls)@) == res.1
        }),
{
    let mut out = String::new();
    let mut current: Option<String> = None;
    let ghost all = segs_view(segs@);
    let ghost lall = links_view(segs@);
    let ghost full = link_mode_from(all, lall, sys, None, urls_view(urls@));
    let mut i: usize = 0;
    assert(all.skip(0) =~= all);
    assert(lall.skip(0) =~= lall);
    while i < segs.len()
        invariant
            i <= segs.len(),
            all == segs_view(segs@),
            lall == links_view(segs@),
            out@ + link_mode_from(all.skip(i as int), lall.skip(i as int), sys, opt_url(current), urls_view(urls@)).0 == full.0,
            link_mode_from(all.skip(i as int), lall.skip(i as int), sys, opt_url(current), urls_view(urls@)).1 == full.1,
        decreases segs.len() - i,
    {
        let seg = &segs[i];
        let ghost before = out@;
        let ghost rest = all.skip(i as int);
        let ghost lrest = lall.skip(i as int);
        let ghost u0 = urls_view(urls@);
        let ghost c0 = opt_url(current);
        proof {
            assert(rest[0] == (seg.text@, seg.style, seg.control));
            assert(lrest[0] == link_of(*seg));
            assert(rest.drop_first() =~= all.skip(i + 1));
            assert(lrest.drop_first() =~= lall.skip(i + 1));
        }
        match seg.control {
            Some(c) => {
                push_control(&mut out, c);
            },
            None => {
                if !same_link(&current, &seg.link) {
                    push_link_switch(&mut out, &current, &seg.link, urls);
                    current = copy_link(&seg.link);
                }
                match (seg.style, sys) {
                    (Some(st), Some(_)) => {
                        let styled = st.render(seg.text.as_str(), sys);
                        push_str(&mut out, styled.as_str());
                    },
                    _ => push_str(&mut out, seg.text.as_str()),
                }
            },
        }
        proof {
            let r1 = link_mode_from(all.skip(i + 1), lall.skip(i + 1), sys, opt_url(current), urls_view(urls@));
            let r0 = link_mode_from(rest, lrest, sys, c0, u0);
            assert(out@ + r1.0 =~= before + r0.0);
            assert(r1.1 == r0.1);
        }
        i = i + 1;
    }
    assert(all.skip(i as int).len() == 0);
    if current.is_some() {
        push_str(&mut out, "\x1b]8;;\x1b\\");
    }
    proof {
        reveal_strlit("\x1b]8;;\x1b\\");
    }
    assert(out@ =~= full.0);
    out
}
} // verus!
