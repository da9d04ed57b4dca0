//! Decisions around rendering a file and opening the page: the WSL check,
//! the extension check, the temporary file name and the page URL.
use vstd::prelude::*;
use vstd::string::StringExecFns;
use crate::text::{contains_seq, contains_str, lowercase, str_eq, to_lowercase};

verus! {

/// Browsers tried, in order, when the system opener fails.
pub const FALLBACK_BROWSERS: [&'static str; 4] = ["xdg-open", "firefox", "google-chrome", "chromium"];

/// A lowercased kernel version string names Microsoft or WSL.
pub open spec fn mentions_wsl_text(lowered: Seq<char>) -> bool {
    contains_seq(lowered, "microsoft"@) || contains_seq(lowered, "wsl"@)
}

/// The kernel version string (the contents of `/proc/version`) is that of WSL.
pub open spec fn is_wsl_text(version: Seq<char>) -> bool {
    mentions_wsl_text(lowercase(version))
}

/// Whether an already lowercased kernel version string names Microsoft or WSL.
pub fn mentions_wsl(lowered: &str) -> (res: bool)
    ensures
        res == mentions_wsl_text(lowered@),
{
    contains_str(lowered, "microsoft") || contains_str(lowered, "wsl")
}

/// Whether the kernel version string (the contents of `/proc/version`)
/// is that of the Windows Subsystem for Linux.
pub fn is_wsl_version(version: &str) -> (res: bool)
    ensures
        res == is_wsl_text(version@),
{
    let lowered = to_lowercase(version);
    mentions_wsl(lowered.as_str())
}

/// The file extensions of Markdown files.
pub open spec fn is_markdown_ext(ext: Seq<char>) -> bool {
    ext == "md"@ || ext == "markdown"@
}

/// Whether `ext` is a Markdown file extension (no warning is due).
pub fn is_markdown_extension(ext: &str) -> (res: bool)
    ensures
        res == is_markdown_ext(ext@),
{
    str_eq(ext, "md") || str_eq(ext, "markdown")
}

/// The lowercase hexadecimal digit of `d`.
pub open spec fn hex_char(d: nat) -> char {
    seq!['0', '1', '2', '3', '4', '5', '6', '7', '8', '9', 'a', 'b', 'c', 'd', 'e', 'f'][d as int]
}

/// The last `count` hexadecimal digits of `n`, most significant first.
pub open spec fn hex_digits(n: nat, count: nat) -> Seq<char>
    decreases count,
{
    if count == 0 {
        Seq::empty()
    } else {
        hex_digits(n / 16, (count - 1) as nat).push(hex_char(n % 16))
    }
}

/// The name of the temporary page file: `mdview_`, the id as eight lowercase
/// hexadecimal digits, and `.html`.
pub open spec fn temp_file_name_text(id: u32) -> Seq<char> {
    "mdview_"@ + hex_digits(id as nat, 8) + ".html"@
}

/// Appends the last `count` hexadecimal digits of `n`.
fn push_hex_digits(out: &mut String, n: u32, count: u32)
    requires
        count <= 8,
    ensures
        final(out)@ == old(out)@ + hex_digits(n as nat, count as nat),
    decreases count,
{
    if count > 0 {
        let digits: [char; 16] = [
            '0', '1', '2', '3', '4', '5', '6', '7', '8', '9', 'a', 'b', 'c', 'd', 'e', 'f',
        ];
        push_hex_digits(out, n / 16, count - 1);
        let d = n % 16;
        assert(digits@[d as int] == hex_char(d as nat));
        out.push(digits[d as usize]);
    }
}

/// The name of the temporary page file for the random `id`, as
/// `format!("mdview_{:08x}.html", id)` writes it.
pub fn temp_file_name(id: u32) -> (res: String)
    ensures
        res@ == temp_file_name_text(id),
{
    let mut s = String::new();
    s.append("mdview_");
    push_hex_digits(&mut s, id, 8);
    s.append(".html");
    assert(s@ =~= temp_file_name_text(id));
    s
}

/// The `file://` URL of a path.
pub fn file_url(path: &str) -> (res: String)
    ensures
        res@ == "file://"@ + path@,
{
    let mut s = String::new();
    s.append("file://");
    s.append(path);
    s
}

/// The value of a lowercase hexadecimal digit character.
pub open spec fn hex_digit_value(c: char) -> int {
    if '0' <= c <= '9' {
        c as int - '0' as int
    } else {
        c as int - 'a' as int + 10
    }
}

/// The number that a string of hexadecimal digits writes, most significant first.
pub open spec fn hex_value(s: Seq<char>) -> int
    decreases s.len(),
{
    if s.len() == 0 {
        0
    } else {
        16 * hex_value(s.drop_last()) + hex_digit_value(s.last())
    }
}

/// Sixteen to the power `c`.
pub open spec fn pow16(c: nat) -> int
    decreases c,
{
    if c == 0 {
        1
    } else {
        16 * pow16((c - 1) as nat)
    }
}

proof fn lemma_pow16_positive(c: nat)
    ensures
        pow16(c) > 0,
    decreases c,
{
    if c > 0 {
        lemma_pow16_positive((c - 1) as nat);
    }
}

/// The last `count` hexadecimal digits of `n` are lowercase digits that
/// write `n` modulo sixteen to the power `count`.
proof fn lemma_hex_digits_value(n: nat, count: nat)
    ensures
        hex_digits(n, count).len() == count,
        hex_value(hex_digits(n, count)) == n as int % pow16(count),
        forall|i: int|
            0 <= i < count ==> ('0' <= #[trigger] hex_digits(n, count)[i] <= '9' || 'a'
                <= hex_digits(n, count)[i] <= 'f'),
    decreases count,
{
    if count > 0 {
        let c = (count - 1) as nat;
        lemma_hex_digits_value(n / 16, c);
        lemma_pow16_positive(c);
        let d = hex_digits(n, count);
        let prev = hex_digits(n / 16, c);
        assert(d.drop_last() =~= prev);
        let r = n % 16;
        assert(hex_digit_value(hex_char(r)) == r);
        vstd::arithmetic::div_mod::lemma_breakdown(n as int, 16, pow16(c));
        assert forall|i: int| 0 <= i < count implies ('0' <= #[trigger] d[i] <= '9' || 'a'
            <= d[i] <= 'f') by {
            if i < c {
                assert(d[i] == prev[i]);
            }
        }
    }
}

/// The temporary file name is `mdview_`, eight lowercase hexadecimal digits
/// that write the id, and `.html`: distinct ids give distinct names.
pub proof fn law_temp_file_name_writes_id(id: u32)
    ensures
        ({
            let name = temp_file_name_text(id);
            let digits = name.subrange(7, 15);
            &&& name.len() == 20
            &&& name.take(7) == "mdview_"@
            &&& name.skip(15) == ".html"@
            &&& hex_value(digits) == id as int
            &&& forall|i: int|
                0 <= i < 8 ==> ('0' <= #[trigger] digits[i] <= '9' || 'a' <= digits[i] <= 'f')
        }),
{
    reveal_strlit("mdview_");
    reveal_strlit(".html");
    lemma_hex_digits_value(id as nat, 8);
    assert(pow16(8) == 0x1_0000_0000) by {
        reveal_with_fuel(pow16, 9);
    }
    let name = temp_file_name_text(id);
    assert(name.subrange(7, 15) =~= hex_digits(id as nat, 8));
    assert(name.take(7) =~= "mdview_"@);
    assert(name.skip(15) =~= ".html"@);
}

/// A kernel version names WSL when its lowercased text mentions `microsoft`
/// or `wsl`, and only then.
pub proof fn law_wsl_named_by_microsoft_or_wsl(lowered: Seq<char>)
    ensures
        contains_seq(lowered, "microsoft"@) ==> mentions_wsl_text(lowered),
        contains_seq(lowered, "wsl"@) ==> mentions_wsl_text(lowered),
        !contains_seq(lowered, "microsoft"@) && !contains_seq(lowered, "wsl"@)
            ==> !mentions_wsl_text(lowered),
{
}

/// Exactly `md` and `markdown` are Markdown extensions.
pub proof fn law_markdown_extensions(ext: Seq<char>)
    ensures
        is_markdown_ext(ext) <==> (ext == "md"@ || ext == "markdown"@),
{
}

} // verus!
