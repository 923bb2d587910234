use vstd::prelude::*;

use crate::number::{decimal, push_decimal};
use crate::text::{chars_of, contains, contains_chars, slice_chars, split_on, split_spans, substring, token_spans, tokens};

verus! {

/// The version named on the first line of `lines` that holds `KWin version:` and at
/// least three fields: its third field.
pub open spec fn version_in_lines(lines: Seq<Seq<char>>) -> Option<Seq<char>>
    decreases lines.len(),
{
    if lines.len() == 0 {
        None
    } else if contains(lines[0], "KWin version:"@) && tokens(lines[0]).len() >= 3 {
        Some(tokens(lines[0])[2])
    } else {
        version_in_lines(lines.drop_first())
    }
}

/// The window manager's version as its support report states it.
pub open spec fn reported_version(info: Seq<char>) -> Option<Seq<char>> {
    version_in_lines(split_on(info, '\n'))
}

/// The name a script is registered under, drawn from `n`.
pub open spec fn script_name_spec(n: u32) -> Seq<char> {
    "ww"@ + decimal((n % 10000) as nat)
}

/// The program that writes the internal id of the active window to `output_path`.
pub open spec fn info_script_text(output_path: Seq<char>) -> Seq<char> {
    "\n        var file = new QFile(\""@ + output_path
        + "\");\n        file.open(QIODevice.WriteOnly);\n        var stream = new QTextStream(file);\n        stream.writeString(String(workspace.activeWindow.internalId));\n        file.close();\n        "@
}

/// The version string in the window manager's support report, if it states one.
pub fn version_from_support_information(info: &str) -> (r: Option<String>)
    ensures
        match r {
            Some(v) => reported_version(info@) == Some(v@),
            None => reported_version(info@) is None,
        },
{
    let cs = chars_of(info);
    let spans = split_spans(&cs, '\n');
    let ghost lines = split_on(cs@, '\n');
    let marker = chars_of("KWin version:");
    let mut k: usize = 0;
    assert(lines.skip(0) =~= lines);
    while k < spans.len()
        invariant
            cs@ == info@,
            marker@ == "KWin version:"@,
            lines == split_on(cs@, '\n'),
            spans@.len() == lines.len(),
            forall|q: int| #![trigger spans[q]] 0 <= q < spans.len() ==> spans[q].0 <= spans[q].1 <= cs.len(),
            forall|q: int|
                0 <= q < spans.len() ==> #[trigger] cs@.subrange(spans[q].0 as int, spans[q].1 as int)
                    == lines[q],
            k <= spans.len(),
            reported_version(info@) == version_in_lines(lines.skip(k as int)),
        decreases spans.len() - k,
    {
        let (lo, hi) = spans[k];
        let line = slice_chars(&cs, lo, hi);
        assert(line@ == lines[k as int]);
        assert(lines.skip(k as int)[0] == lines[k as int]);
        if contains_chars(&line, &marker) {
            let fields = token_spans(&line);
            if fields.len() >= 3 {
                let (a, b) = fields[2];
                let v = substring(info, lo + a, lo + b);
                assert(v@ =~= line@.subrange(a as int, b as int));
                return Some(v);
            }
        }
        assert(lines.skip(k as int).drop_first() =~= lines.skip(k + 1));
        k = k + 1;
    }
    None
}

/// The registration name for a script, drawn from the number `n`.
pub fn script_name(n: u32) -> (r: String)
    ensures
        r@ == script_name_spec(n),
{
    let mut r = String::from_str("ww");
    push_decimal(&mut r, n % 10000);
    r
}

/// Relies on rand::random: a value drawn from the thread-local generator; nothing
/// is known of it.
pub assume_specification<T>[ rand::random::<T> ]() -> (r: T)
    where
        rand::distributions::Standard: rand::distributions::Distribution<T>,
;

/// A registration name for a script, drawn at random.
pub fn random_script_name() -> (r: String)
    ensures
        exists|n: u32| r@ == script_name_spec(n),
{
    let n: u32 = rand::random::<u32>();
    script_name(n)
}

/// The program that records which window is active in the file `output_path`.
pub fn info_script(output_path: &str) -> (r: String)
    ensures
        r@ == info_script_text(output_path@),
{
    let mut r = String::from_str("\n        var file = new QFile(\"");
    r.append(output_path);
    r.append(
        "\");\n        file.open(QIODevice.WriteOnly);\n        var stream = new QTextStream(file);\n        stream.writeString(String(workspace.activeWindow.internalId));\n        file.close();\n        ",
    );
    r
}

} // verus!
