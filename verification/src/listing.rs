//! The directory-listing formatter behind the `ls` built-in.
//!
//! The caller reads the directory and hands in one [`EntryInfo`] per
//! entry, as plain values; the formatter hides dot-entries unless asked,
//! sorts case-insensitively by name, and renders one line per visible
//! entry — plus a block-total header in detail mode.

use vstd::prelude::*;
use vstd::arithmetic::div_mod::lemma_div_is_ordered;
use crate::textfmt::{
    dec_str, dec_u128, dec_u64, lex_le, lower_of, lowercase, pad_left, pad_left_seq, pad_right,
    pad_right_seq, spaces, spaces_seq, str_ends_with,
};

verus! {

broadcast use vstd::seq_lib::group_to_multiset_ensures, vstd::multiset::group_multiset_axioms;

/// What the formatter needs to know of one directory entry.
pub struct EntryInfo {
    /// The entry's file name.
    pub name: String,
    /// The entry is a directory.
    pub is_dir: bool,
    /// The entry is read-only.
    pub readonly: bool,
    /// The entry counts as executable (see the platform checks).
    pub is_exec: bool,
    /// Size in bytes.
    pub size: u64,
    /// Modification time in seconds since the epoch, when known.
    pub mtime: Option<i64>,
}

/// A name is shown unless it starts with a dot and hidden entries were
/// not asked for.
pub open spec fn visible(name: Seq<char>, show_hidden: bool) -> bool {
    show_hidden || name.len() == 0 || name[0] != '.'
}

/// The permission column, in the style of a long Unix listing.
pub open spec fn perm_str(is_dir: bool, is_exec: bool, readonly: bool) -> Seq<char> {
    if is_dir {
        if readonly {
            "dr-xr-xr-x"@
        } else {
            "drwxr-xr-x"@
        }
    } else if is_exec {
        if readonly {
            "-r-xr-xr-x"@
        } else {
            "-rwxr-xr-x"@
        }
    } else {
        if readonly {
            "-r--r--r--"@
        } else {
            "-rw-r--r--"@
        }
    }
}

/// The permission column of one entry.
pub fn perms_of(e: &EntryInfo) -> (r: &'static str)
    ensures
        r@ == perm_str(e.is_dir, e.is_exec, e.readonly),
{
    if e.is_dir {
        if e.readonly {
            "dr-xr-xr-x"
        } else {
            "drwxr-xr-x"
        }
    } else if e.is_exec {
        if e.readonly {
            "-r-xr-xr-x"
        } else {
            "-rwxr-xr-x"
        }
    } else {
        if e.readonly {
            "-r--r--r--"
        } else {
            "-rw-r--r--"
        }
    }
}

/// How many 512-byte blocks a file of `size` bytes occupies.
pub open spec fn blocks_of(size: u64) -> int {
    (size + 511) / 512
}

/// The block count summed over all entries, hidden ones included.
pub open spec fn total_blocks(entries: Seq<EntryInfo>) -> int
    decreases entries.len(),
{
    if entries.len() == 0 {
        0
    } else {
        total_blocks(entries.drop_last()) + blocks_of(entries.last().size)
    }
}

/// Sum the block counts of all entries.
pub fn total_blocks_exec(entries: &Vec<EntryInfo>) -> (t: u128)
    ensures
        t == total_blocks(entries@),
{
    let mut t: u128 = 0;
    let mut i: usize = 0;
    proof {
        assert(entries@.take(0) =~= Seq::<EntryInfo>::empty());
    }
    while i < entries.len()
        invariant
            i <= entries@.len(),
            t == total_blocks(entries@.take(i as int)),
            t <= i * 0x4000_0000_0000_0000,
        decreases entries@.len() - i,
    {
        let b: u128 = ((entries[i].size as u128) + 511) / 512;
        proof {
            lemma_div_is_ordered(
                entries@[i as int].size + 511,
                0xFFFF_FFFF_FFFF_FFFFu64 + 511,
                512,
            );
            assert(entries@.take(i + 1).drop_last() =~= entries@.take(i as int));
            assert(entries@.take(i + 1).last() == entries@[i as int]);
        }
        t = t + b;
        i = i + 1;
    }
    proof {
        assert(entries@.take(entries@.len() as int) =~= entries@);
    }
    t
}

/// The first line of a detail listing: the block total.
pub fn total_line(entries: &Vec<EntryInfo>) -> (r: String)
    ensures
        r@ == "total "@ + dec_str(total_blocks(entries@) as nat),
{
    let t = total_blocks_exec(entries);
    let mut r = "total ".to_owned();
    let d = dec_u128(t);
    r.append(d.as_str());
    r
}

/// The underlined column header of a detail listing.
pub open spec fn header_line() -> Seq<char> {
    "\x1B[4m"@ + pad_right_seq("Permissions"@, 10) + " "@ + pad_left_seq("Lnk"@, 3) + " "@
        + pad_right_seq("Owner"@, 10) + " "@ + pad_left_seq("Size"@, 10) + " "@ + pad_right_seq(
        "Modified"@,
        12,
    ) + " "@ + "Name\x1B[0m"@
}

/// Build the column header of a detail listing.
pub fn build_header() -> (r: String)
    ensures
        r@ == header_line(),
{
    let mut r = "\x1B[4m".to_owned();
    let c1 = pad_right("Permissions", 10);
    r.append(c1.as_str());
    r.append(" ");
    let c2 = pad_left("Lnk", 3);
    r.append(c2.as_str());
    r.append(" ");
    let c3 = pad_right("Owner", 10);
    r.append(c3.as_str());
    r.append(" ");
    let c4 = pad_left("Size", 10);
    r.append(c4.as_str());
    r.append(" ");
    let c5 = pad_right("Modified", 12);
    r.append(c5.as_str());
    r.append(" ");
    r.append("Name\x1B[0m");
    proof {
        assert(r@ =~= header_line());
    }
    r
}

/// The line of one entry in the short listing: directories in bold blue
/// with a cyan slash, executables in bold green, the rest bare.
pub open spec fn simple_line(e: EntryInfo) -> Seq<char> {
    if e.is_dir {
        "\x1B[1;34m"@ + e.name@ + "\x1B[0m\x1B[36m/\x1B[0m"@
    } else if e.is_exec {
        "\x1B[1;32m"@ + e.name@ + "\x1B[0m"@
    } else {
        e.name@
    }
}

/// Render one entry for the short listing.
pub fn simple_line_of(e: &EntryInfo) -> (r: String)
    ensures
        r@ == simple_line(*e),
{
    if e.is_dir {
        let mut r = "\x1B[1;34m".to_owned();
        r.append(e.name.as_str());
        r.append("\x1B[0m\x1B[36m/\x1B[0m");
        proof {
            assert(r@ =~= simple_line(*e));
        }
        r
    } else if e.is_exec {
        let mut r = "\x1B[1;32m".to_owned();
        r.append(e.name.as_str());
        r.append("\x1B[0m");
        proof {
            assert(r@ =~= simple_line(*e));
        }
        r
    } else {
        e.name.as_str().to_owned()
    }
}

/// Relies on chrono's `DateTime::from_timestamp` and its `%b %e %H:%M`
/// formatting: a timestamp inside chrono's supported range renders, in
/// the machine's local time zone, as a three-letter month abbreviation,
/// a space-padded day, and zero-padded hour and minute — twelve
/// characters in all; a timestamp outside the range yields nothing.
#[verifier::external_body]
fn format_local_mtime(secs: i64) -> (r: Option<String>)
    ensures
        r matches Some(s) ==> s@.len() == 12,
{
    chrono::DateTime::from_timestamp(secs, 0).map(
        |dt| dt.with_timezone(&chrono::Local).format("%b %e %H:%M").to_string(),
    )
}

/// What may stand in the modified column for an entry: the clock text
/// when the time is known and representable, a question mark otherwise.
pub open spec fn time_text_ok(mtime: Option<i64>, t: Seq<char>) -> bool {
    match mtime {
        Option::None => t == "?"@,
        Option::Some(_) => t.len() == 12 || t == "?"@,
    }
}

/// The modified column of an entry.
pub fn time_text(mtime: Option<i64>) -> (r: String)
    ensures
        time_text_ok(mtime, r@),
{
    match mtime {
        Option::None => "?".to_owned(),
        Option::Some(secs) => match format_local_mtime(secs) {
            Option::Some(s) => s,
            Option::None => "?".to_owned(),
        },
    }
}

/// A lowercased name that looks like an archive, colored red in detail
/// mode.
pub open spec fn is_archive_name(lower: Seq<char>) -> bool {
    ||| ".zip"@.is_suffix_of(lower)
    ||| ".tar"@.is_suffix_of(lower)
    ||| ".gz"@.is_suffix_of(lower)
    ||| ".7z"@.is_suffix_of(lower)
    ||| ".rar"@.is_suffix_of(lower)
}

/// Whether an already-lowercased name carries an archive extension.
pub fn archive_extension_check(lower: &str) -> (r: bool)
    ensures
        r == is_archive_name(lower@),
{
    str_ends_with(lower, ".zip") || str_ends_with(lower, ".tar") || str_ends_with(lower, ".gz")
        || str_ends_with(lower, ".7z") || str_ends_with(lower, ".rar")
}

/// The index of the last occurrence of `c` in `s`, or `-1`.
pub open spec fn last_index_of(s: Seq<char>, c: char) -> int
    decreases s.len(),
{
    if s.len() == 0 {
        -1
    } else if s.last() == c {
        s.len() - 1
    } else {
        last_index_of(s.drop_last(), c)
    }
}

fn last_dot(s: &str) -> (r: Option<usize>)
    ensures
        r matches Some(i) ==> last_index_of(s@, '.') == i && i < s@.len(),
        r is None ==> last_index_of(s@, '.') == -1,
{
    let mut i = s.unicode_len();
    proof {
        assert(s@.take(i as int) =~= s@);
    }
    while i > 0
        invariant
            i <= s@.len(),
            last_index_of(s@, '.') == last_index_of(s@.take(i as int), '.'),
        decreases i,
    {
        proof {
            assert(s@.take(i as int).last() == s@[i - 1]);
            assert(s@.take(i as int).drop_last() =~= s@.take(i - 1));
        }
        if s.get_char(i - 1) == '.' {
            return Some(i - 1);
        }
        i = i - 1;
    }
    None
}

/// The color that detail mode gives an entry's name: bold blue for
/// directories, bold green for executables, bold red for archives,
/// nothing otherwise — here applied around `body`.
pub open spec fn colorize(e: EntryInfo, body: Seq<char>) -> Seq<char> {
    if e.is_dir {
        "\x1B[1;34m"@ + body + "\x1B[0m"@
    } else if e.is_exec {
        "\x1B[1;32m"@ + body + "\x1B[0m"@
    } else if is_archive_name(lower_of(e.name@)) {
        "\x1B[1;31m"@ + body + "\x1B[0m"@
    } else {
        body
    }
}

/// The name column of detail mode, forty characters wide: the colored
/// name (directories get a cyan slash), space-padded; a name too long
/// for the column is shortened, keeping its extension when that fits.
pub open spec fn display_name(e: EntryInfo) -> Seq<char> {
    let n = e.name@;
    let plain_len: int = n.len() + if e.is_dir {
        1int
    } else {
        0int
    };
    if plain_len <= 40 {
        let colored = colorize(e, n) + if e.is_dir {
            "\x1B[36m/\x1B[0m"@
        } else {
            Seq::<char>::empty()
        };
        colored + spaces_seq((40 - plain_len) as nat)
    } else {
        let d = last_index_of(n, '.');
        if d >= 0 && n.len() - d <= 35 {
            let ext = n.skip(d);
            let head = n.take(35 - ext.len());
            colorize(e, head) + "(...)"@ + ext
        } else {
            let plain = n + if e.is_dir {
                "/"@
            } else {
                Seq::<char>::empty()
            };
            plain.take(35) + "(...)"@
        }
    }
}

fn apply_color(e: &EntryInfo, body: &str) -> (r: String)
    ensures
        r@ == colorize(*e, body@),
{
    if e.is_dir {
        let mut r = "\x1B[1;34m".to_owned();
        r.append(body);
        r.append("\x1B[0m");
        proof {
            assert(r@ =~= colorize(*e, body@));
        }
        r
    } else if e.is_exec {
        let mut r = "\x1B[1;32m".to_owned();
        r.append(body);
        r.append("\x1B[0m");
        proof {
            assert(r@ =~= colorize(*e, body@));
        }
        r
    } else {
        let lower = lowercase(e.name.as_str());
        if archive_extension_check(lower.as_str()) {
            let mut r = "\x1B[1;31m".to_owned();
            r.append(body);
            r.append("\x1B[0m");
            proof {
                assert(r@ =~= colorize(*e, body@));
            }
            r
        } else {
            body.to_owned()
        }
    }
}

/// Render the forty-character name column of one entry.
pub fn display_name_of(e: &EntryInfo) -> (r: String)
    ensures
        r@ == display_name(*e),
{
    let n = e.name.as_str();
    let nl = n.unicode_len();
    let fits = if e.is_dir {
        nl <= 39
    } else {
        nl <= 40
    };
    if fits {
        let mut r = apply_color(e, n);
        if e.is_dir {
            r.append("\x1B[36m/\x1B[0m");
        }
        let plain_len = if e.is_dir {
            nl + 1
        } else {
            nl
        };
        let pad = spaces(40 - plain_len);
        r.append(pad.as_str());
        proof {
            assert(r@ =~= display_name(*e));
        }
        r
    } else {
        let dot = last_dot(n);
        let mid = match dot {
            Some(d) => nl - d <= 35,
            None => false,
        };
        if mid {
            let d = match dot {
                Some(d) => d,
                None => 0,
            };
            let ext = n.substring_char(d, nl);
            let head = n.substring_char(0, 35 - (nl - d));
            proof {
                assert(ext@ =~= n@.skip(d as int));
                assert(head@ =~= n@.take(35 - n@.skip(d as int).len()));
            }
            let mut r = apply_color(e, head);
            r.append("(...)");
            r.append(ext);
            proof {
                assert(r@ =~= display_name(*e));
            }
            r
        } else {
            let mut plain = e.name.as_str().to_owned();
            if e.is_dir {
                plain.append("/");
            }
            proof {
                if !e.is_dir {
                    assert(plain@ =~= e.name@ + Seq::<char>::empty());
                }
            }
            let mut r = plain.as_str().substring_char(0, 35).to_owned();
            r.append("(...)");
            proof {
                assert(r@ =~= display_name(*e));
            }
            r
        }
    }
}

/// One line of the detail listing: permissions, link count (two for
/// directories, one otherwise), owner, size, modification time, and the
/// forty-character name column.
pub open spec fn detail_line(e: EntryInfo, owner: Seq<char>, t: Seq<char>) -> Seq<char> {
    perm_str(e.is_dir, e.is_exec, e.readonly) + " "@ + pad_left_seq(
        dec_str(
            if e.is_dir {
                2nat
            } else {
                1nat
            },
        ),
        3,
    ) + " "@ + pad_right_seq(owner, 10) + " "@ + pad_left_seq(dec_str(e.size as nat), 10) + " "@
        + pad_right_seq(t, 12) + " "@ + display_name(e)
}

/// Render one entry for the detail listing.
pub fn detail_line_of(e: &EntryInfo, owner: &str) -> (r: String)
    ensures
        exists|t: Seq<char>|
            #![trigger time_text_ok(e.mtime, t)]
            time_text_ok(e.mtime, t) && r@ == detail_line(*e, owner@, t),
{
    let links: u64 = if e.is_dir {
        2
    } else {
        1
    };
    let t = time_text(e.mtime);
    let mut r = perms_of(e).to_owned();
    r.append(" ");
    let links_s = dec_u64(links);
    let c1 = pad_left(links_s.as_str(), 3);
    r.append(c1.as_str());
    r.append(" ");
    let c2 = pad_right(owner, 10);
    r.append(c2.as_str());
    r.append(" ");
    let size_s = dec_u64(e.size);
    let c3 = pad_left(size_s.as_str(), 10);
    r.append(c3.as_str());
    r.append(" ");
    let c4 = pad_right(t.as_str(), 12);
    r.append(c4.as_str());
    r.append(" ");
    let name_col = display_name_of(e);
    r.append(name_col.as_str());
    proof {
        assert(r@ =~= detail_line(*e, owner@, t@));
    }
    r
}

/// An entry paired with its lowercased name, the sort key.
struct Keyed {
    key: String,
    entry: EntryInfo,
}

spec fn entries_of(s: Seq<Keyed>) -> Seq<EntryInfo> {
    s.map_values(|k: Keyed| k.entry)
}

spec fn keys_ok(s: Seq<Keyed>) -> bool {
    forall|i: int| 0 <= i < s.len() ==> #[trigger] s[i].key@ == lower_of(s[i].entry.name@)
}

spec fn sorted_keys(s: Seq<Keyed>) -> bool {
    forall|i: int, j: int| 0 <= i < j < s.len() ==> lex_le(#[trigger] s[i].key@, #[trigger] s[j].key@)
}

/// Entries stand in case-insensitive name order.
pub open spec fn sorted_by_name(s: Seq<EntryInfo>) -> bool {
    forall|i: int, j: int|
        0 <= i < j < s.len() ==> lex_le(
            lower_of(#[trigger] s[i].name@),
            lower_of(#[trigger] s[j].name@),
        )
}

fn sort_keyed(v: Vec<Keyed>) -> (r: Vec<Keyed>)
    ensures
        r@.to_multiset() == v@.to_multiset(),
        entries_of(r@).to_multiset() == entries_of(v@).to_multiset(),
        sorted_keys(r@),
{
    let ghost orig = v@;
    let mut v = v;
    let mut r: Vec<Keyed> = Vec::new();
    while v.len() > 0
        invariant
            r@.to_multiset().add(v@.to_multiset()) == orig.to_multiset(),
            entries_of(r@).to_multiset().add(entries_of(v@).to_multiset()) == entries_of(
                orig,
            ).to_multiset(),
            sorted_keys(r@),
            forall|i: int, j: int|
                0 <= i < r@.len() && 0 <= j < v@.len() ==> lex_le(
                    #[trigger] r@[i].key@,
                    #[trigger] v@[j].key@,
                ),
        decreases v@.len(),
    {
        let mut m: usize = 0;
        let mut t: usize = 1;
        proof {
            crate::textfmt::lemma_lex_le_refl(v@[0].key@);
        }
        while t < v.len()
            invariant
                m < t <= v@.len(),
                forall|k: int| 0 <= k < t ==> lex_le(#[trigger] v@[m as int].key@, v@[k].key@),
            decreases v@.len() - t,
        {
            if crate::textfmt::str_lex_le(v[t].key.as_str(), v[m].key.as_str()) {
                proof {
                    assert forall|k: int| 0 <= k < t implies lex_le(
                        #[trigger] v@[t as int].key@,
                        v@[k].key@,
                    ) by {
                        crate::textfmt::lemma_lex_le_trans(
                            v@[t as int].key@,
                            v@[m as int].key@,
                            v@[k].key@,
                        );
                    }
                    crate::textfmt::lemma_lex_le_refl(v@[t as int].key@);
                }
                m = t;
            } else {
                proof {
                    crate::textfmt::lemma_lex_le_total(v@[t as int].key@, v@[m as int].key@);
                }
            }
            t = t + 1;
        }
        let ghost old_v = v@;
        let ghost old_r = r@;
        let x = v.remove(m);
        r.push(x);
        proof {
            assert(entries_of(old_r.push(x)) =~= entries_of(old_r).push(x.entry));
            assert(entries_of(old_v.remove(m as int)) =~= entries_of(old_v).remove(m as int));
            assert(entries_of(old_v)[m as int] == x.entry);
            assert(old_v.contains(x)) by {
                assert(old_v[m as int] == x);
            }
            assert(entries_of(old_v).contains(x.entry)) by {
                assert(entries_of(old_v)[m as int] == x.entry);
            }
            assert(old_v.to_multiset().count(x) > 0);
            assert(r@.to_multiset() =~= old_r.to_multiset().insert(x));
            assert(v@.to_multiset() =~= old_v.to_multiset().remove(x));
            assert(r@.to_multiset().add(v@.to_multiset()) =~= orig.to_multiset());
            assert(entries_of(old_v).to_multiset().count(x.entry) > 0);
            assert(entries_of(r@).to_multiset() =~= entries_of(old_r).to_multiset().insert(
                x.entry,
            ));
            assert(entries_of(v@).to_multiset() =~= entries_of(old_v).to_multiset().remove(
                x.entry,
            ));
            assert(entries_of(r@).to_multiset().add(entries_of(v@).to_multiset())
                =~= entries_of(orig).to_multiset());
            assert forall|i: int, j: int|
                0 <= i < r@.len() && 0 <= j < v@.len() implies lex_le(
                #[trigger] r@[i].key@,
                #[trigger] v@[j].key@,
            ) by {
                if i < old_r.len() {
                    assert(old_v.contains(old_v[if j < m { j } else { j + 1 }]));
                } else {
                    assert(v@[j] == old_v[if j < m { j } else { j + 1 }]);
                }
            }
        }
    }
    r
}

/// The entries that a listing shows, in their listed order.
pub open spec fn vis_filter(s: Seq<EntryInfo>, show_hidden: bool) -> Seq<EntryInfo> {
    s.filter(|e: EntryInfo| visible(e.name@, show_hidden))
}

/// What `format_listing` promises of its lines, for the sorted
/// rearrangement `sorted` of the entries it was given.
pub open spec fn listing_lines_ok(
    entries: Seq<EntryInfo>,
    sorted: Seq<EntryInfo>,
    show_details: bool,
    show_hidden: bool,
    owner: Seq<char>,
    lines: Seq<Seq<char>>,
) -> bool {
    let vis = vis_filter(sorted, show_hidden);
    &&& sorted.to_multiset() == entries.to_multiset()
    &&& sorted_by_name(sorted)
    &&& if show_details {
        &&& lines.len() == vis.len() + 2
        &&& lines[0] == "total "@ + dec_str(total_blocks(entries) as nat)
        &&& lines[1] == header_line()
        &&& forall|i: int|
            #![trigger vis[i]]
            0 <= i < vis.len() ==> exists|t: Seq<char>|
                #![trigger time_text_ok(vis[i].mtime, t)]
                time_text_ok(vis[i].mtime, t) && lines[i + 2] == detail_line(vis[i], owner, t)
    } else {
        &&& lines.len() == vis.len()
        &&& forall|i: int| #![trigger vis[i]] 0 <= i < vis.len() ==> lines[i] == simple_line(vis[i])
    }
}

/// Format a directory listing: one line per visible entry, sorted
/// case-insensitively by name; in detail mode a block total and a column
/// header come first.
pub fn format_listing(
    entries: Vec<EntryInfo>,
    show_details: bool,
    show_hidden: bool,
    owner: &str,
) -> (lines: Vec<String>)
    ensures
        exists|sorted: Seq<EntryInfo>|
            #![trigger sorted_by_name(sorted)]
            listing_lines_ok(
                entries@,
                sorted,
                show_details,
                show_hidden,
                owner@,
                crate::tokenize::views_of(lines@),
            ),
{
    let ghost orig = entries@;
    let mut lines: Vec<String> = Vec::new();
    if show_details {
        let t = total_line(&entries);
        lines.push(t);
        let h = build_header();
        lines.push(h);
    }
    let mut keyed: Vec<Keyed> = Vec::new();
    let mut es = entries;
    while es.len() > 0
        invariant
            entries_of(keyed@) + es@ == orig,
            keys_ok(keyed@),
        decreases es@.len(),
    {
        let ghost old_keyed = keyed@;
        let ghost old_es = es@;
        let e = es.remove(0);
        let key = lowercase(e.name.as_str());
        keyed.push(Keyed { key, entry: e });
        proof {
            assert(entries_of(keyed@) =~= entries_of(old_keyed).push(keyed@.last().entry));
            assert(entries_of(keyed@) + es@ =~= orig);
        }
    }
    proof {
        assert(entries_of(keyed@) + es@ =~= entries_of(keyed@));
        assert(entries_of(keyed@) == orig);
    }
    let sk = sort_keyed(keyed);
    let ghost sorted = entries_of(sk@);
    proof {
        assert(keys_ok(sk@)) by {
            assert forall|i: int| 0 <= i < sk@.len() implies #[trigger] sk@[i].key@ == lower_of(
                sk@[i].entry.name@,
            ) by {
                assert(sk@.to_multiset().contains(sk@[i])) by {
                    assert(sk@.to_multiset().count(sk@[i]) > 0);
                }
            }
        }
        assert(sorted_by_name(sorted)) by {
            assert forall|i: int, j: int| 0 <= i < j < sorted.len() implies lex_le(
                lower_of(#[trigger] sorted[i].name@),
                lower_of(#[trigger] sorted[j].name@),
            ) by {
                assert(sk@[i].key@ == lower_of(sk@[i].entry.name@));
                assert(sk@[j].key@ == lower_of(sk@[j].entry.name@));
            }
        }
        assert(sorted.to_multiset() == orig.to_multiset());
    }
    let ghost off: int = if show_details {
        2int
    } else {
        0int
    };
    let mut i: usize = 0;
    proof {
        assert(sorted.take(0) =~= Seq::<EntryInfo>::empty());
        reveal(Seq::filter);
    }
    while i < sk.len()
        invariant
            i <= sk@.len(),
            sorted == entries_of(sk@),
            off == if show_details {
                2int
            } else {
                0int
            },
            crate::tokenize::views_of(lines@).len() == off + vis_filter(
                sorted.take(i as int),
                show_hidden,
            ).len(),
            show_details ==> crate::tokenize::views_of(lines@)[0] == "total "@ + dec_str(
                total_blocks(orig) as nat,
            ) && crate::tokenize::views_of(lines@)[1] == header_line(),
            forall|j: int|
                0 <= j < vis_filter(sorted.take(i as int), show_hidden).len() ==> if show_details {
                    exists|t: Seq<char>|
                        #![trigger time_text_ok(vis_filter(sorted.take(i as int), show_hidden)[j].mtime, t)]
                        time_text_ok(vis_filter(sorted.take(i as int), show_hidden)[j].mtime, t)
                            && crate::tokenize::views_of(lines@)[j + off] == detail_line(
                            vis_filter(sorted.take(i as int), show_hidden)[j],
                            owner@,
                            t,
                        )
                } else {
                    crate::tokenize::views_of(lines@)[j + off] == simple_line(
                        vis_filter(sorted.take(i as int), show_hidden)[j],
                    )
                },
        decreases sk@.len() - i,
    {
        let k = &sk[i];
        let name_len = k.entry.name.as_str().unicode_len();
        let hidden_entry = name_len > 0 && k.entry.name.as_str().get_char(0) == '.';
        let show = show_hidden || !hidden_entry;
        let ghost old_lines = lines@;
        let ghost prev_vis = vis_filter(sorted.take(i as int), show_hidden);
        proof {
            reveal(Seq::filter);
            assert(sorted.take(i + 1).drop_last() =~= sorted.take(i as int));
            assert(sorted.take(i + 1).last() == sorted[i as int]);
            assert(sorted[i as int] == sk@[i as int].entry);
        }
        if show {
            let line = if show_details {
                detail_line_of(&k.entry, owner)
            } else {
                simple_line_of(&k.entry)
            };
            lines.push(line);
            proof {
                assert(vis_filter(sorted.take(i + 1), show_hidden) =~= prev_vis.push(
                    sorted[i as int],
                ));
                assert(crate::tokenize::views_of(lines@) =~= crate::tokenize::views_of(
                    old_lines,
                ).push(lines@.last()@));
            }
        } else {
            proof {
                assert(vis_filter(sorted.take(i + 1), show_hidden) =~= prev_vis);
            }
        }
        i = i + 1;
    }
    proof {
        assert(sorted.take(sk@.len() as int) =~= sorted);
        assert(listing_lines_ok(
            orig,
            sorted,
            show_details,
            show_hidden,
            owner@,
            crate::tokenize::views_of(lines@),
        ));
    }
    lines
}

} // verus!
