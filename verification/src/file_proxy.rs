//! FileProxy: a writer whose complete lines go to a console, ANSI codes decoded.
use vstd::prelude::*;
use crate::ansi::AnsiDecoder;
use crate::console::{Console, ConsoleModel, ConsoleOptions, after_write, print_options};
use crate::ansi::decode_line_spec;
use crate::style::{Style, null_style};
use crate::segment::SegView;
use crate::strs::{push_str, push_chars, str_chars, string_from_chars, split_spec, split_chars, sub_chars};
use crate::text::{Span, SpanView, Text, TextModel, plain_model, render_text_spec};

verus! {

broadcast use vstd::string::group_string_axioms;

/// An error of a standard writer.
#[verifier::external_type_specification]
#[verifier::external_body]
pub struct ExIoError(std::io::Error);

/// A writer that buffers text and prints each complete line through a console,
/// decoding ANSI escape codes.
pub struct FileProxy<W> {
    console: Console,
    inner: W,
    buffer: String,
    decoder: AnsiDecoder,
}

/// The index of the last newline, if any.
pub open spec fn last_newline(s: Seq<char>) -> Option<int>
    decreases s.len(),
{
    if s.len() == 0 {
        None
    } else if s.last() == '\n' {
        Some(s.len() - 1)
    } else {
        last_newline(s.drop_last())
    }
}

/// Spans moved `off` characters on; a span that would end past `usize::MAX` is left
/// out.
pub open spec fn shifted_spans(spans: Seq<SpanView>, off: nat) -> Seq<SpanView>
    decreases spans.len(),
{
    if spans.len() == 0 {
        Seq::empty()
    } else {
        let sp = spans.last();
        shifted_spans(spans.drop_last(), off) + (if sp.0 + off <= usize::MAX && sp.1 + off <= usize::MAX {
            seq![((sp.0 + off) as usize, (sp.1 + off) as usize, sp.2)]
        } else {
            Seq::empty()
        })
    }
}

/// The text that lines print as, and the decoder's style after them: each line
/// decoded (the style carried from line to line), a newline between each two, each
/// line's spans moved to where the line starts. Text that would grow past
/// `usize::MAX` characters is left out.
pub open spec fn lines_text(lines: Seq<Seq<char>>, st: Style) -> (TextModel, Style)
    decreases lines.len(),
{
    if lines.len() == 0 {
        (plain_model(Seq::empty(), None), st)
    } else {
        let prev = lines_text(lines.drop_last(), st);
        let t = prev.0;
        let d = decode_line_spec(lines.last(), prev.1);
        let plain0 = if lines.len() > 1 && t.plain.len() < usize::MAX { t.plain + seq!['\n'] } else { t.plain };
        let off = plain0.len();
        if off + d.0.len() <= usize::MAX {
            (TextModel { plain: plain0 + d.0, spans: t.spans + shifted_spans(d.1, off), ..t }, d.2)
        } else {
            (TextModel { plain: plain0, ..t }, d.2)
        }
    }
}

/// Spans whose values are the given span values.
pub open spec fn spans_view_eq(v: Seq<Span>, sv: Seq<SpanView>) -> bool {
    v.len() == sv.len() && forall|i: int| 0 <= i < v.len() ==> #[trigger] sv[i] == (v[i].start, v[i].end, v[i].style)
}

/// The lines as character sequences.
pub open spec fn char_lines(v: Seq<Vec<char>>) -> Seq<Seq<char>> {
    v.map_values(|l: Vec<char>| l@)
}

impl<W> FileProxy<W> {
    /// The text held back until its line is complete.
    pub closed spec fn buffer_view(&self) -> Seq<char> {
        self.buffer@
    }

    /// The console's state.
    pub closed spec fn console_view(&self) -> ConsoleModel {
        self.console@
    }

    /// The wrapped writer.
    pub closed spec fn inner_view(&self) -> W {
        self.inner
    }

    /// The style the ANSI decoder carries to the next line.
    pub closed spec fn decoder_style(&self) -> Style {
        self.decoder.style
    }

    /// How many render hooks the console holds.
    pub closed spec fn hook_count(&self) -> nat {
        self.console.hook_count()
    }

    /// What printing decoded lines does: the decoder's style is carried on; the console
    /// prints the lines' text followed by a newline (nothing in quiet mode), exactly as
    /// `lines_text` gives it when there are no render hooks.
    pub open spec fn lines_printed(before: Self, after: Self, lines: Seq<Seq<char>>) -> bool {
        let lt = lines_text(lines, before.decoder_style());
        &&& after.decoder_style() == lt.1
        &&& after.hook_count() == before.hook_count()
        &&& before.console_view().quiet ==> after.console_view() == before.console_view()
        &&& !before.console_view().quiet && before.hook_count() == 0 ==> after.console_view() == after_write(
            before.console_view(),
            render_text_spec(lt.0, print_options(before.console_view().options, None, None, false)),
            None,
            seq!['\n'],
        )
        &&& !before.console_view().quiet ==> exists|segs: Seq<SegView>|
            after.console_view() == after_write(before.console_view(), segs, None, seq!['\n'])
    }

    /// What taking text does: with the text held back, the lines up to the last
    /// newline are printed as `lines_printed` says and the rest is held back; with no
    /// newline, all is held back and nothing is printed.
    pub open spec fn text_taken(before: Self, after: Self, text: Seq<char>) -> bool {
        let s = before.buffer_view() + text;
        match last_newline(s) {
            None => after.buffer_view() == s && after.console_view() == before.console_view()
                && after.decoder_style() == before.decoder_style() && after.hook_count() == before.hook_count(),
            Some(k) => after.buffer_view() == s.skip(k + 1)
                && Self::lines_printed(before, after, split_spec(s.take(k), '\n')),
        }
    }

    /// Take bytes: the text they encode is taken as `process_text` takes it, and the
    /// count of bytes is returned.
    pub fn write_bytes(&mut self, buf: &[u8]) -> (r: usize)
        ensures
            r == buf@.len(),
            final(self).inner_view() == old(self).inner_view(),
            Self::text_taken(*old(self), *final(self), utf8_lossy(buf@)),
            forall|t: Seq<char>| vstd::utf8::encode_utf8(t) == buf@ ==> Self::text_taken(*old(self), *final(self), t),
    {
        let text = text_of_bytes(buf);
        self.process_text(text.as_str());
        buf.len()
    }

    /// A proxy printing through a console, wrapping a writer.
    pub fn new(console: Console, inner: W) -> (r: Self)
        ensures
            r.buffer_view().len() == 0,
            r.console_view() == console@,
            r.inner_view() == inner,
            r.decoder_style() == null_style(),
    {
        FileProxy { console, inner, buffer: String::new(), decoder: AnsiDecoder::new() }
    }

    /// A proxy printing through a console with the given options.
    pub fn with_options(options: ConsoleOptions, inner: W) -> (r: Self)
        ensures
            r.buffer_view().len() == 0,
            r.console_view() == crate::console::console_from(options@),
            r.inner_view() == inner,
            r.decoder_style() == null_style(),
    {
        FileProxy { console: Console::with_options(options), inner, buffer: String::new(), decoder: AnsiDecoder::new() }
    }

    /// A proxy printing through a console, wrapping a writer.
    pub fn with_console(console: Console, inner: W) -> (r: Self)
        ensures
            r.buffer_view().len() == 0,
            r.console_view() == console@,
            r.inner_view() == inner,
            r.decoder_style() == null_style(),
    {
        FileProxy { console, inner, buffer: String::new(), decoder: AnsiDecoder::new() }
    }

    /// The wrapped writer.
    pub fn inner(&self) -> (r: &W)
        ensures
            *r == self.inner_view(),
    {
        &self.inner
    }

    /// The wrapped writer, to change.
    pub fn inner_mut(&mut self) -> (r: &mut W)
        ensures
            *r == old(self).inner_view(),
            final(self).inner_view() == *final(r),
            final(self).buffer_view() == old(self).buffer_view(),
            final(self).console_view() == old(self).console_view(),
    {
        &mut self.inner
    }

    /// The console.
    pub fn console(&self) -> (r: &Console)
        ensures
            r@ == self.console_view(),
    {
        &self.console
    }

    /// The console, to change.
    pub fn console_mut(&mut self) -> (r: &mut Console)
        ensures
            r@ == old(self).console_view(),
            final(self).console_view() == final(r)@,
            final(self).buffer_view() == old(self).buffer_view(),
            final(self).inner_view() == old(self).inner_view(),
    {
        &mut self.console
    }

    /// The wrapped writer, the proxy given up.
    pub fn into_inner(self) -> (r: W)
        ensures
            r == self.inner_view(),
    {
        self.inner
    }

    /// Decode lines and print them as one text, a newline between each two.
    fn print_lines(&mut self, lines: &Vec<Vec<char>>)
        ensures
            final(self).buffer_view() == old(self).buffer_view(),
            final(self).inner_view() == old(self).inner_view(),
            Self::lines_printed(*old(self), *final(self), char_lines(lines@)),
    {
        let ghost lv = char_lines(lines@);
        let ghost st0 = self.decoder.style;
        let mut output = Text::new();
        assert(output@.plain =~= Seq::<char>::empty());
        assert(output@.spans =~= Seq::<SpanView>::empty());
        assert(output@ == plain_model(Seq::empty(), None));
        let mut i: usize = 0;
        proof {
            reveal_strlit("\n");
            assert(lv.take(0) =~= Seq::<Seq<char>>::empty());
        }
        while i < lines.len()
            invariant
                i <= lines@.len(),
                lv == char_lines(lines@),
                self.buffer@ == old(self).buffer@,
                self.inner == old(self).inner,
                self.console@ == old(self).console@,
                self.console.hook_count() == old(self).console.hook_count(),
                "\n"@ == seq!['\n'],
                output@ == lines_text(lv.take(i as int), st0).0,
                self.decoder.style == lines_text(lv.take(i as int), st0).1,
            decreases lines.len() - i,
        {
            proof {
                assert(lv.take(i + 1).drop_last() =~= lv.take(i as int));
                assert(lv.take(i + 1).last() == lines@[i as int]@);
            }
            let ghost t0 = output@;
            let line = string_from_chars(lines[i].as_slice());
            let decoded = self.decoder.decode_line(line.as_str());
            if i > 0 && output.len() < usize::MAX {
                output.append("\n", None);
            }
            let ghost t1 = output@;
            assert(t1 == TextModel { plain: if i > 0 && t0.plain.len() < usize::MAX { t0.plain + seq!['\n'] } else { t0.plain }, ..t0 });
            let off = output.len();
            let plain = decoded.plain_text();
            let plen = decoded.len();
            if off as u128 + plen as u128 <= usize::MAX as u128 {
                output.append(plain.as_str(), None);
                let ghost t2 = output@;
                let spans = decoded.spans();
                let ghost dsp = decoded@.spans;
                let mut k: usize = 0;
                assert(dsp.take(0) =~= Seq::<SpanView>::empty());
                while k < spans.len()
                    invariant
                        k <= spans@.len(),
                        spans_view_eq(spans@, dsp),
                        output@ == (TextModel { spans: t2.spans + shifted_spans(dsp.take(k as int), off as nat), ..t2 }),
                    decreases spans.len() - k,
                {
                    let sp = &spans[k];
                    let ghost b = output@;
                    assert(dsp.take(k + 1).drop_last() =~= dsp.take(k as int));
                    assert(dsp[k as int] == (sp.start, sp.end, sp.style));
                    if sp.start as u128 + off as u128 <= usize::MAX as u128 && sp.end as u128 + off as u128 <= usize::MAX as u128 {
                        output.push_span(Span::new(sp.start + off, sp.end + off, sp.style));
                    }
                    assert(output@.spans =~= t2.spans + shifted_spans(dsp.take(k + 1), off as nat));
                    k = k + 1;
                }
                assert(dsp.take(k as int) =~= dsp);
            }
            i = i + 1;
        }
        assert(lv.take(i as int) =~= lv);
        proof {
            reveal_strlit("\n");
            assert("\n"@ =~= seq!['\n']);
        }
        self.console.print(&output, None, None, None, false, "\n");
    }

    /// Take text: complete lines (with what was held back) are printed, the rest is
    /// held back.
    pub fn process_text(&mut self, text: &str)
        ensures
            final(self).inner_view() == old(self).inner_view(),
            Self::text_taken(*old(self), *final(self), text@),
    {
        let mut all = str_chars(self.buffer.as_str());
        let tc = str_chars(text);
        let ghost s = self.buffer@ + text@;
        let mut j: usize = 0;
        while j < tc.len()
            invariant
                j <= tc@.len(),
                all@ == self.buffer@ + tc@.take(j as int),
            decreases tc.len() - j,
        {
            all.push(tc[j]);
            assert(tc@.take(j + 1) =~= tc@.take(j as int).push(tc@[j as int]));
            j = j + 1;
        }
        assert(tc@.take(j as int) =~= tc@);
        assert(all@ =~= s);
        // Find the last newline.
        let mut p: usize = all.len();
        assert(all@.take(p as int) =~= all@);
        while p > 0 && all[p - 1] != '\n'
            invariant
                p <= all@.len(),
                last_newline(all@) == last_newline(all@.take(p as int)),
            decreases p,
        {
            assert(all@.take(p as int).drop_last() =~= all@.take(p - 1));
            p = p - 1;
        }
        if p == 0 {
            assert(all@.take(0) =~= Seq::<char>::empty());
            self.buffer = string_from_chars(all.as_slice());
            return;
        }
        assert(all@.take(p as int).last() == '\n');
        assert(all@ =~= all@.take(all@.len() as int));
        // Split the complete part into lines.
        let head = sub_chars(all.as_slice(), 0, p - 1);
        let lines = split_chars(head.as_slice(), '\n');
        assert(char_lines(lines@) =~= split_spec(s.take(p - 1), '\n')) by {
            assert(head@ =~= s.take(p - 1));
        }
        let rest = crate::strs::sub_string(all.as_slice(), p, all.len());
        assert(rest@ =~= s.skip(p as int));
        self.print_lines(&lines);
        self.buffer = rest;
    }

    /// Print what is held back, if anything.
    pub fn flush_buffer(&mut self)
        ensures
            final(self).inner_view() == old(self).inner_view(),
            final(self).buffer_view().len() == 0,
            old(self).buffer_view().len() == 0 ==> final(self).console_view() == old(self).console_view()
                && final(self).decoder_style() == old(self).decoder_style() && final(self).hook_count() == old(self).hook_count(),
            old(self).buffer_view().len() > 0 ==> Self::lines_printed(*old(self), *final(self), seq![old(self).buffer_view()]),
    {
        if self.buffer.as_str().unicode_len() > 0 {
            let buffered = str_chars(self.buffer.as_str());
            self.buffer = String::new();
            let mut lines: Vec<Vec<char>> = Vec::new();
            lines.push(buffered);
            assert(char_lines(lines@) =~= seq![old(self).buffer@]);
            self.print_lines(&lines);
        }
    }
}

/// What `String::from_utf8_lossy` gives for bytes: the characters they encode, each
/// invalid sequence replaced by U+FFFD.
pub uninterp spec fn utf8_lossy(bytes: Seq<u8>) -> Seq<char>;

/// Text from bytes, by std's `String::from_utf8_lossy`: `utf8_lossy` of the bytes,
/// which are the characters that the bytes encode when they are valid UTF-8.
#[verifier::external_body]
pub(crate) fn text_of_bytes(buf: &[u8]) -> (r: String)
    ensures
        r@ == utf8_lossy(buf@),
        forall|s: Seq<char>| vstd::utf8::encode_utf8(s) == buf@ ==> r@ == s,
{
    String::from_utf8_lossy(buf).into_owned()
}

impl<W> std::io::Write for FileProxy<W> {
    fn write(&mut self, buf: &[u8]) -> (r: std::io::Result<usize>) {
        let n = self.write_bytes(buf);
        Ok(n)
    }

    fn flush(&mut self) -> (r: std::io::Result<()>) {
        self.flush_buffer();
        Ok(())
    }
}

} // verus!
