use crate::extension::ExtensionData;
use crate::manifest::{catalog_of, get_extension_data, manifest_error};
use crate::profile::{check_profile_dirs_exist, Failure};
use crate::text::{
    ellipsis, lemma_flatten_push, flatten, graphemes_of, join, joined, opt_seq, truncate_ellipse, truncated_segments, views,
};
use vstd::prelude::*;

verus! {

/// Options of the `extensions` subcommand.
#[derive(Debug, Clone, Copy, PartialEq, Eq)]
pub struct ListCLI {
    /// Show each extension's version.
    pub versions: bool,
    /// Show extra information as comments.
    pub commends: bool,
    /// Show the catalog as a table.
    pub table: bool,
    /// Show icons (accepted; the text is the same).
    pub icons: bool,
}

/// The unresolved localization token that stands for a missing display name.
pub const DISPLAY_NAME_PLACEHOLDER: &'static str = "%ext.displayName%";

/// The unresolved localization token that stands for a missing description.
pub const DESCRIPTION_PLACEHOLDER: &'static str = "%ext.description%";

/// The line shown in place of a table when no extension is installed.
pub const EMPTY_CATALOG: &'static str = "There is no installed extensions on profile";

/// One extension's row of the table.
pub struct TableRow {
    /// `publisher.name`.
    pub name: String,
    /// The display name, or nothing.
    pub display_name: String,
    /// Lines shown under the row in the description column.
    pub details: Vec<String>,
}

/// The catalog laid out in two columns.
pub struct Table {
    /// The length of the longest name.
    pub name_len: usize,
    /// The width of the description column.
    pub desc_len: usize,
    pub rows: Vec<TableRow>,
}

/// What the `extensions` subcommand prints.
pub enum Listing {
    Lines(Vec<String>),
    Table(Table),
}

/// A text that is worth showing: present, not empty, and not the placeholder.
pub open spec fn shown(v: Option<String>, placeholder: Seq<char>) -> Option<Seq<char>> {
    match v {
        Some(s) => if s@.len() > 0 && s@ != placeholder {
            Some(s@)
        } else {
            None
        },
        None => None,
    }
}

/// The lines of one extension in a list: comments first when asked for, then
/// its identifier, then a blank line when comments are shown.
pub open spec fn entry_lines(e: ExtensionData, versions: bool, commends: bool) -> Seq<Seq<char>> {
    if !commends {
        seq![e.name_view(versions)]
    } else {
        let dn = match shown(e.display_name, DISPLAY_NAME_PLACEHOLDER@) {
            Some(d) => seq!["# "@ + d + " ("@ + e.version@ + ")"@],
            None => Seq::<Seq<char>>::empty(),
        };
        let ds = match shown(e.description, DESCRIPTION_PLACEHOLDER@) {
            Some(d) => seq!["# "@ + d],
            None => Seq::<Seq<char>>::empty(),
        };
        let cs = if e.categories@.len() > 0 {
            seq!["# Type: "@ + joined(views(e.categories@), ", "@)]
        } else {
            Seq::<Seq<char>>::empty()
        };
        dn + ds + cs + seq![e.name_view(versions), Seq::<char>::empty()]
    }
}

/// The lines of a whole list, one extension after another.
pub open spec fn list_lines(exts: Seq<ExtensionData>, versions: bool, commends: bool) -> Seq<
    Seq<char>,
>
    decreases exts.len(),
{
    if exts.len() == 0 {
        Seq::<Seq<char>>::empty()
    } else {
        list_lines(exts.drop_last(), versions, commends) + entry_lines(
            exts.last(),
            versions,
            commends,
        )
    }
}

/// The length of the longest `publisher.name`.
pub open spec fn max_name_len(exts: Seq<ExtensionData>) -> nat
    decreases exts.len(),
{
    if exts.len() == 0 {
        0
    } else {
        let rest = max_name_len(exts.drop_last());
        let here = exts.last().name_view(false).len();
        if here > rest {
            here
        } else {
            rest
        }
    }
}

/// The width left for descriptions: the terminal's width less the name column
/// and two columns of padding, or nothing when the names take it all.
pub open spec fn desc_width(term_width: nat, name_len: nat) -> nat {
    if term_width >= name_len + 2 {
        (term_width - name_len - 2) as nat
    } else {
        0
    }
}

/// A text shortened to a width, as the table shows it.
pub open spec fn fitted(s: Seq<char>, width: nat) -> Seq<char> {
    flatten(truncated_segments(graphemes_of(s), width))
}

/// The lines under a row: the shortened description when it is not the
/// placeholder and something of it is left,
/// then the categories; only when comments are asked for.
pub open spec fn row_details(e: ExtensionData, width: nat, commends: bool) -> Seq<Seq<char>> {
    if !commends {
        Seq::<Seq<char>>::empty()
    } else {
        let ds = match unless_placeholder(e.description, DESCRIPTION_PLACEHOLDER@) {
            Some(d) => if fitted(d, width).len() > 0 {
                seq![fitted(d, width)]
            } else {
                Seq::<Seq<char>>::empty()
            },
            None => Seq::<Seq<char>>::empty(),
        };
        let cs = if e.categories@.len() > 0 {
            seq![fitted("Type: "@ + joined(views(e.categories@), ", "@), width)]
        } else {
            Seq::<Seq<char>>::empty()
        };
        ds + cs
    }
}

/// A text that is present and not the placeholder; it may be empty.
pub open spec fn unless_placeholder(v: Option<String>, placeholder: Seq<char>) -> Option<Seq<char>> {
    match v {
        Some(s) => if s@ != placeholder {
            Some(s@)
        } else {
            None
        },
        None => None,
    }
}

/// The display name shown in a row, or nothing.
pub open spec fn row_display_name(e: ExtensionData) -> Seq<char> {
    match shown(e.display_name, DISPLAY_NAME_PLACEHOLDER@) {
        Some(d) => d,
        None => Seq::<char>::empty(),
    }
}

/// A row holds the extension's name, its display name and the lines under it.
pub open spec fn row_matches(r: TableRow, e: ExtensionData, width: nat, commends: bool) -> bool {
    &&& r.name@ == e.name_view(false)
    &&& r.display_name@ == row_display_name(e)
    &&& views(r.details@) == row_details(e, width, commends)
}

/// The text of an optional value, when it is worth showing.
fn shown_text(v: &Option<String>, placeholder: &str) -> (r: Option<String>)
    ensures
        opt_seq(r) == shown(*v, placeholder@),
{
    match v {
        Some(s) => {
            if s.unicode_len() > 0 && !text_eq(s.as_str(), placeholder) {
                Some(s.clone())
            } else {
                None
            }
        },
        None => None,
    }
}

/// The text of an optional value, unless it is the placeholder.
fn text_unless(v: &Option<String>, placeholder: &str) -> (r: Option<String>)
    ensures
        opt_seq(r) == unless_placeholder(*v, placeholder@),
{
    match v {
        Some(s) => {
            if !text_eq(s.as_str(), placeholder) {
                Some(s.clone())
            } else {
                None
            }
        },
        None => None,
    }
}

/// Two texts hold the same characters.
fn text_eq(a: &str, b: &str) -> (r: bool)
    ensures
        r == (a@ == b@),
{
    let la = a.unicode_len();
    if la != b.unicode_len() {
        return false;
    }
    let mut i: usize = 0;
    while i < la
        invariant
            la == a@.len(),
            la == b@.len(),
            i <= la,
            a@.take(i as int) == b@.take(i as int),
        decreases la - i,
    {
        if a.get_char(i) != b.get_char(i) {
            return false;
        }
        proof {
            assert(a@.take(i + 1) =~= a@.take(i as int).push(a@[i as int]));
            assert(b@.take(i + 1) =~= b@.take(i as int).push(b@[i as int]));
        }
        i = i + 1;
    }
    proof {
        assert(a@.take(i as int) =~= a@);
        assert(b@.take(i as int) =~= b@);
    }
    true
}

/// The categories joined with commas.
fn categories_text(e: &ExtensionData) -> (r: String)
    ensures
        r@ == joined(views(e.categories@), ", "@),
{
    join(&e.categories, ", ")
}

/// The list lines of one extension.
fn entry(e: &ExtensionData, versions: bool, commends: bool) -> (r: Vec<String>)
    ensures
        views(r@) == entry_lines(*e, versions, commends),
{
    let mut out: Vec<String> = Vec::new();
    if !commends {
        out.push(e.get_name(versions));
        proof {
            assert(views(out@) =~= entry_lines(*e, versions, commends));
        }
        return out;
    }
    proof {
        reveal_strlit("# ");
        reveal_strlit(" (");
        reveal_strlit(")");
        reveal_strlit("# Type: ");
    }
    match shown_text(&e.display_name, DISPLAY_NAME_PLACEHOLDER) {
        Some(d) => {
            let mut l = String::from_str("# ");
            l.append(d.as_str());
            l.append(" (");
            l.append(e.version.as_str());
            l.append(")");
            out.push(l);
        },
        None => {},
    }
    assert(views(out@) =~= match shown(e.display_name, DISPLAY_NAME_PLACEHOLDER@) {
        Some(d) => seq!["# "@ + d + " ("@ + e.version@ + ")"@],
        None => Seq::<Seq<char>>::empty(),
    });
    let ghost o1 = views(out@);
    match shown_text(&e.description, DESCRIPTION_PLACEHOLDER) {
        Some(d) => {
            let mut l = String::from_str("# ");
            l.append(d.as_str());
            out.push(l);
        },
        None => {},
    }
    assert(views(out@) =~= o1 + match shown(e.description, DESCRIPTION_PLACEHOLDER@) {
        Some(d) => seq!["# "@ + d],
        None => Seq::<Seq<char>>::empty(),
    });
    let ghost o2 = views(out@);
    if e.categories.len() > 0 {
        let mut l = String::from_str("# Type: ");
        let c = categories_text(e);
        l.append(c.as_str());
        out.push(l);
    }
    assert(views(out@) =~= o2 + if e.categories@.len() > 0 {
        seq!["# Type: "@ + joined(views(e.categories@), ", "@)]
    } else {
        Seq::<Seq<char>>::empty()
    });
    out.push(e.get_name(versions));
    out.push(String::new());
    proof {
        assert(views(out@) =~= entry_lines(*e, versions, commends));
    }
    out
}

/// The catalog as a list: identifiers only, or with comments before each.
pub fn display_as_list(exts: &Vec<ExtensionData>, cli: &ListCLI) -> (r: Vec<String>)
    ensures
        views(r@) == list_lines(exts@, cli.versions, cli.commends),
{
    let mut out: Vec<String> = Vec::new();
    let mut i: usize = 0;
    while i < exts.len()
        invariant
            i <= exts@.len(),
            views(out@) == list_lines(exts@.take(i as int), cli.versions, cli.commends),
        decreases exts@.len() - i,
    {
        let mut more = entry(&exts[i], cli.versions, cli.commends);
        let ghost before = out@;
        let ghost added = more@;
        out.append(&mut more);
        proof {
            let t = exts@.take(i + 1);
            assert(t.drop_last() =~= exts@.take(i as int));
            assert(t.last() == exts@[i as int]);
            assert(views(out@) =~= views(before) + views(added));
        }
        i = i + 1;
    }
    proof {
        assert(exts@.take(i as int) =~= exts@);
    }
    out
}

/// The length of the longest name among the extensions.
fn longest_name(exts: &Vec<ExtensionData>) -> (r: usize)
    ensures
        r == max_name_len(exts@),
{
    let mut best: usize = 0;
    let mut i: usize = 0;
    while i < exts.len()
        invariant
            i <= exts@.len(),
            best == max_name_len(exts@.take(i as int)),
        decreases exts@.len() - i,
    {
        let n = exts[i].get_name(false);
        let len = n.as_str().unicode_len();
        proof {
            let t = exts@.take(i + 1);
            assert(t.drop_last() =~= exts@.take(i as int));
            assert(t.last() == exts@[i as int]);
        }
        if len > best {
            best = len;
        }
        i = i + 1;
    }
    proof {
        assert(exts@.take(i as int) =~= exts@);
    }
    best
}

/// The row of one extension.
fn table_row(e: &ExtensionData, width: usize, commends: bool) -> (r: TableRow)
    ensures
        row_matches(r, *e, width as nat, commends),
{
    let name = e.get_name(false);
    let display_name = match shown_text(&e.display_name, DISPLAY_NAME_PLACEHOLDER) {
        Some(d) => d,
        None => String::new(),
    };
    let mut details: Vec<String> = Vec::new();
    if commends {
        match text_unless(&e.description, DESCRIPTION_PLACEHOLDER) {
            Some(d) => {
                let t = truncate_ellipse(d.as_str(), width);
                if t.unicode_len() > 0 {
                    details.push(t);
                }
            },
            None => {},
        }
        if e.categories.len() > 0 {
            let mut txt = String::from_str("Type: ");
            let c = categories_text(e);
            txt.append(c.as_str());
            details.push(truncate_ellipse(txt.as_str(), width));
            proof {
                reveal_strlit("Type: ");
            }
        }
        proof {
            assert(views(details@) =~= row_details(*e, width as nat, commends));
        }
    } else {
        assert(views(details@) =~= row_details(*e, width as nat, commends));
    }
    TableRow { name, display_name, details }
}

/// A table of the extensions, for a terminal of the given width.
pub open spec fn table_matches(
    t: Table,
    exts: Seq<ExtensionData>,
    term_width: nat,
    commends: bool,
) -> bool {
    &&& t.name_len == max_name_len(exts)
    &&& t.desc_len == desc_width(term_width, max_name_len(exts))
    &&& t.rows@.len() == exts.len()
    &&& forall|i: int|
        0 <= i < exts.len() ==> row_matches(#[trigger] t.rows@[i], exts[i], t.desc_len as nat, commends)
}

/// The catalog laid out as a table whose description column fills the
/// terminal's width.
fn table_of(exts: &Vec<ExtensionData>, cli: &ListCLI, term_width: usize) -> (r: Table)
    ensures
        table_matches(r, exts@, term_width as nat, cli.commends),
{
    let name_len = longest_name(exts);
    let desc_len: usize = if term_width >= name_len && term_width - name_len >= 2 {
        term_width - name_len - 2
    } else {
        0
    };
    let mut rows: Vec<TableRow> = Vec::new();
    let mut i: usize = 0;
    while i < exts.len()
        invariant
            i <= exts@.len(),
            rows@.len() == i,
            forall|k: int|
                0 <= k < i ==> row_matches(#[trigger] rows@[k], exts@[k], desc_len as nat, cli.commends),
        decreases exts@.len() - i,
    {
        rows.push(table_row(&exts[i], desc_len, cli.commends));
        i = i + 1;
    }
    Table { name_len, desc_len, rows }
}

/// The catalog as a table whose description column fills the terminal's
/// width, or a single line saying so when there is nothing to show.
pub fn display_as_table(exts: &Vec<ExtensionData>, cli: &ListCLI, term_width: usize) -> (r: Listing)
    ensures
        exts@.len() == 0 ==> (r matches Listing::Lines(x) && views(x@) == seq![EMPTY_CATALOG@]),
        exts@.len() > 0 ==> (r matches Listing::Table(t) && table_matches(
            t,
            exts@,
            term_width as nat,
            cli.commends,
        )),
{
    if exts.len() == 0 {
        let mut l: Vec<String> = Vec::new();
        l.push(String::from_str(EMPTY_CATALOG));
        proof {
            assert(views(l@) =~= seq![EMPTY_CATALOG@]);
        }
        Listing::Lines(l)
    } else {
        Listing::Table(table_of(exts, cli, term_width))
    }
}

/// What the `extensions` subcommand shows for a sorted catalog: a table when
/// asked for (or a single line when there is nothing to show), else a list.
pub open spec fn listing_of(l: Listing, cli: ListCLI, exts: Seq<ExtensionData>, term_width: nat) -> bool {
    &&& cli.table && exts.len() == 0 ==> (l matches Listing::Lines(x) && views(x@) == seq![
        EMPTY_CATALOG@,
    ])
    &&& cli.table && exts.len() > 0 ==> (l matches Listing::Table(t) && table_matches(
        t,
        exts,
        term_width,
        cli.commends,
    ))
    &&& !cli.table ==> (l matches Listing::Lines(x) && views(x@) == list_lines(
        exts,
        cli.versions,
        cli.commends,
    ))
}

/// Shows a sorted catalog as the options ask.
pub fn render_listing(cli: &ListCLI, exts: &Vec<ExtensionData>, term_width: usize) -> (r: Listing)
    ensures
        listing_of(r, *cli, exts@, term_width as nat),
{
    if cli.table {
        display_as_table(exts, cli, term_width)
    } else {
        Listing::Lines(display_as_list(exts, cli))
    }
}

/// A description equal to the placeholder is treated as absent, in the list
/// and in the table alike.
pub proof fn lemma_placeholder_description_absent(
    e: ExtensionData,
    f: ExtensionData,
    versions: bool,
    commends: bool,
    width: nat,
)
    requires
        e.description is Some,
        e.description.unwrap()@ == DESCRIPTION_PLACEHOLDER@,
        f.description is None,
        f.publisher == e.publisher,
        f.name == e.name,
        f.version == e.version,
        f.display_name == e.display_name,
        f.categories == e.categories,
    ensures
        entry_lines(e, versions, commends) == entry_lines(f, versions, commends),
        row_details(e, width, commends) == row_details(f, width, commends),
{
}

/// In a table with comments, a description that is not the placeholder and
/// has more clusters than the description column is wide shows as its first
/// `desc_len` clusters followed by an ellipsis; the column is the terminal's
/// width less the longest name and two columns of padding.
pub proof fn lemma_long_description_line(
    t: Table,
    exts: Seq<ExtensionData>,
    term_width: nat,
    i: int,
    d: String,
)
    requires
        table_matches(t, exts, term_width, true),
        0 <= i < exts.len(),
        exts[i].description == Some(d),
        d@ != DESCRIPTION_PLACEHOLDER@,
        graphemes_of(d@).len() > t.desc_len,
        t.desc_len > 0,
    ensures
        views(t.rows@[i].details@)[0] == flatten(graphemes_of(d@).take(t.desc_len as int))
            + ellipsis(),
        term_width >= max_name_len(exts) + 2 ==> t.desc_len == term_width - max_name_len(exts) - 2,
{
    let gs = graphemes_of(d@);
    let w = t.desc_len as nat;
    lemma_flatten_push(gs.take(w as int), ellipsis());
    assert(fitted(d@, w) == flatten(gs.take(w as int)) + ellipsis());
    assert(fitted(d@, w).len() > 0);
    assert(row_matches(t.rows@[i], exts[i], w, true));
}

/// The whole `extensions` subcommand once the profile's directories were
/// looked at and the manifests read: a configuration failure, and no listing,
/// when a directory is missing; the error of the first manifest that cannot be
/// read; otherwise the listing of the catalog that the manifests describe.
pub fn list(
    cli: &ListCLI,
    data_dir_exists: bool,
    ext_dir_exists: bool,
    manifests: &Vec<String>,
    term_width: usize,
) -> (r: Result<Listing, Failure>)
    ensures
        !(data_dir_exists && ext_dir_exists) ==> r == Err::<Listing, Failure>(Failure::Config),
        data_dir_exists && ext_dir_exists ==> (r is Err <==> exists|i: int|
            0 <= i < manifests@.len() && manifest_error(#[trigger] manifests@[i]@) is Some),
        data_dir_exists && ext_dir_exists && r is Err ==> (r matches Err(Failure::Manifest(e))
            && exists|i: int|
            0 <= i < manifests@.len() && manifest_error(#[trigger] manifests@[i]@) == Some(e)
                && forall|j: int| 0 <= j < i ==> manifest_error(#[trigger] manifests@[j]@) is None),
        r is Ok ==> exists|exts: Seq<ExtensionData>, p: Seq<int>|
            catalog_of(exts, views(manifests@), p) && listing_of(
                r.unwrap(),
                *cli,
                exts,
                term_width as nat,
            ),
{
    if let Err(f) = check_profile_dirs_exist(data_dir_exists, ext_dir_exists) {
        return Err(f);
    }
    match get_extension_data(manifests) {
        Err(e) => Err(Failure::Manifest(e)),
        Ok(exts) => {
            let l = render_listing(cli, &exts, term_width);
            let ghost ev = exts@;
            let result: Result<Listing, Failure> = Ok(l);
            proof {
                let p = choose|p: Seq<int>| catalog_of(ev, views(manifests@), p);
                assert(catalog_of(ev, views(manifests@), p) && listing_of(
                    result.unwrap(),
                    *cli,
                    ev,
                    term_width as nat,
                ));
            }
            result
        },
    }
}

} // verus!
