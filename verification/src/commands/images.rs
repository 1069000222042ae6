//! `images`: the images in the local store.

use vstd::prelude::*;

use crate::glob;
use crate::glob::glob_match;
use crate::image;
use crate::image::{short_digest, ImageReference, StoredImage};
use crate::seqs;
use crate::split;
use crate::split::{replace, split_once};
use crate::strmap;
use crate::strmap::StrMap;
use crate::text;
use crate::text::{cat2, cat3, cat5, str_eq};

verus! {

/// The arguments of `images`.
#[derive(Debug)]
pub struct ImagesArgs {
    pub quiet: bool,
    pub format: Option<String>,
    pub filter: Vec<String>,
    /// Accepted for compatibility; the listing is the same without it.
    pub all: bool,
    /// Accepted for compatibility; the listing is the same without it.
    pub digests: bool,
    /// Accepted for compatibility; the listing is the same without it.
    pub no_trunc: bool,
}

/// What images are listed by.
#[derive(Debug)]
pub enum ImageFilter {
    /// A pattern for the reference.
    Reference(String),
    /// A label, with its value or with any.
    Label(String, Option<String>),
}

/// What images are listed by.
pub enum FilterView {
    Reference(Seq<char>),
    Label(Seq<char>, Option<Seq<char>>),
}

impl View for ImageFilter {
    type V = FilterView;

    open spec fn view(&self) -> FilterView {
        match self {
            ImageFilter::Reference(p) => FilterView::Reference(p@),
            ImageFilter::Label(k, v) => FilterView::Label(k@, text::opt_str(*v)),
        }
    }
}

/// What filters hold.
pub open spec fn filter_views(l: Seq<ImageFilter>) -> Seq<FilterView> {
    l.map_values(|f: ImageFilter| f@)
}

/// What a filter asks for, or why it asks for nothing.
pub open spec fn filter_of(s: Seq<char>) -> Result<FilterView, Seq<char>> {
    match split::cut(s, '=') {
        None => Err("Invalid --filter (expected key=value): "@ + s),
        Some((key, value)) => if key == "reference"@ {
            Ok(FilterView::Reference(value))
        } else if key == "label"@ {
            match split::cut(value, '=') {
                Some((k, v)) => Ok(FilterView::Label(k, Some(v))),
                None => Ok(FilterView::Label(value, None)),
            }
        } else {
            Err("Unsupported image filter '"@ + key + "' (supported: reference, label)"@)
        },
    }
}

/// What filters ask for, in order, or why the first that asks for nothing does.
pub open spec fn filters_of(specs: Seq<Seq<char>>) -> Result<Seq<FilterView>, Seq<char>>
    decreases specs.len(),
{
    if specs.len() == 0 {
        Ok(Seq::empty())
    } else {
        match filters_of(specs.drop_last()) {
            Err(e) => Err(e),
            Ok(l) => match filter_of(specs.last()) {
                Err(e) => Err(e),
                Ok(f) => Ok(l.push(f)),
            },
        }
    }
}

impl ImageFilter {
    /// What a filter asks for.
    pub fn parse(spec: &str) -> (r: Result<ImageFilter, String>)
        ensures
            match r {
                Ok(f) => filter_of(spec@) == Ok::<FilterView, Seq<char>>(f@),
                Err(e) => filter_of(spec@) == Err::<FilterView, Seq<char>>(e@),
            },
    {
        match split_once(spec, '=') {
            None => Err(cat2("Invalid --filter (expected key=value): ", spec)),
            Some((key, value)) => {
                if str_eq(key, "reference") {
                    Ok(ImageFilter::Reference(value.to_string()))
                } else if str_eq(key, "label") {
                    match split_once(value, '=') {
                        Some((k, v)) => Ok(ImageFilter::Label(k.to_string(), Some(v.to_string()))),
                        None => Ok(ImageFilter::Label(value.to_string(), None)),
                    }
                } else {
                    Err(cat3("Unsupported image filter '", key, "' (supported: reference, label)"))
                }
            },
        }
    }
}

/// A filter that asks for nothing fails the filters behind it too.
proof fn lemma_filters_failed(specs: Seq<Seq<char>>, n: int)
    requires
        0 <= n <= specs.len(),
        filters_of(specs.take(n)) is Err,
    ensures
        filters_of(specs) == filters_of(specs.take(n)),
    decreases specs.len() - n,
{
    if n < specs.len() {
        assert(specs.take(n + 1).drop_last() =~= specs.take(n));
        lemma_filters_failed(specs, n + 1);
    } else {
        assert(specs.take(n) =~= specs);
    }
}

/// What filters ask for.
pub fn parse_filters(specs: &Vec<String>) -> (r: Result<Vec<ImageFilter>, String>)
    ensures
        match r {
            Ok(l) => filters_of(text::strs(specs@)) == Ok::<Seq<FilterView>, Seq<char>>(filter_views(l@)),
            Err(e) => filters_of(text::strs(specs@)) == Err::<Seq<FilterView>, Seq<char>>(e@),
        },
{
    let ghost all = text::strs(specs@);
    let mut out: Vec<ImageFilter> = Vec::new();
    assert(filter_views(out@) =~= Seq::empty());
    for i in 0..specs.len()
        invariant
            all == text::strs(specs@),
            filters_of(all.take(i as int)) == Ok::<Seq<FilterView>, Seq<char>>(filter_views(out@)),
    {
        proof {
            assert(all.take(i + 1).drop_last() =~= all.take(i as int));
            assert(all.take(i + 1).last() == specs@[i as int]@);
        }
        match ImageFilter::parse(&specs[i]) {
            Ok(f) => {
                let ghost before = out@;
                out.push(f);
                assert(filter_views(out@) =~= filter_views(before).push(f@));
            },
            Err(e) => {
                proof {
                    lemma_filters_failed(all, i + 1);
                }
                return Err(e);
            },
        }
    }
    assert(all.take(specs@.len() as int) =~= all);
    Ok(out)
}

/// The names that an image can be asked for by: its reference and, where that
/// has parts, the full form and the forms with less and less of it.
pub open spec fn candidates(reference: Seq<char>, parsed: Option<image::ReferenceView>) -> Seq<Seq<char>> {
    match parsed {
        Some(p) => {
            let tag = match p.tag {
                Some(t) => t,
                None => "latest"@,
            };
            let leaf = split::pieces(p.repository, '/').last();
            seq![
                reference,
                p.registry + "/"@ + p.repository + ":"@ + tag,
                p.repository + ":"@ + tag,
                p.repository,
                leaf,
                leaf + ":"@ + tag,
            ]
        },
        None => seq![reference],
    }
}

/// The names that an image can be asked for by.
pub fn reference_candidates(reference: &str, parsed: &Option<ImageReference>) -> (r: Vec<String>)
    ensures
        text::strs(r@) == candidates(reference@, image::opt_reference(*parsed)),
{
    let mut out: Vec<String> = Vec::new();
    out.push(reference.to_string());
    if let Some(p) = parsed {
        let tag: &str = match &p.tag {
            Some(t) => t,
            None => "latest",
        };
        out.push(cat5(&p.registry, "/", &p.repository, ":", tag));
        out.push(cat3(&p.repository, ":", tag));
        out.push(p.repository.clone());
        let parts = split::split(&p.repository, '/');
        let leaf = &parts[parts.len() - 1];
        assert(leaf@ == text::strs(parts@).last());
        out.push(leaf.clone());
        out.push(cat3(leaf, ":", tag));
    }
    assert(text::strs(out@) =~= candidates(reference@, image::opt_reference(*parsed)));
    out
}

/// An image of the store with what is known of it.
#[derive(Debug)]
pub struct ImageEntry {
    pub image: StoredImage,
    /// The parts of its reference, if it has parts.
    pub parsed: Option<ImageReference>,
    /// Its labels, if its configuration can be read.
    pub labels: Option<StrMap<String>>,
    /// Its size in words.
    pub size: String,
    /// How long ago it was pulled, in words.
    pub pulled: String,
}

/// Labels, if there are any.
pub open spec fn label_view(o: Option<StrMap<String>>) -> Option<Map<Seq<char>, Seq<char>>> {
    match o {
        Some(m) => Some(strmap::texts(m@)),
        None => None,
    }
}

/// Whether an image meets a filter.
pub open spec fn meets(e: ImageEntry, f: FilterView) -> bool {
    match f {
        FilterView::Reference(p) => exists|i: int|
            0 <= i < candidates(e.image.reference@, image::opt_reference(e.parsed)).len() && glob::globs(
                p,
                #[trigger] candidates(e.image.reference@, image::opt_reference(e.parsed))[i],
            ),
        FilterView::Label(k, v) => match label_view(e.labels) {
            Some(m) => m.contains_key(k) && (v is None || v == Some(m[k])),
            None => false,
        },
    }
}

/// Whether an image meets all filters.
pub open spec fn meets_all(e: ImageEntry, filters: Seq<FilterView>) -> bool {
    forall|i: int| 0 <= i < filters.len() ==> meets(e, #[trigger] filters[i])
}

/// Whether an image meets a filter.
pub fn image_matches(entry: &ImageEntry, filter: &ImageFilter) -> (r: bool)
    ensures
        r == meets(*entry, filter@),
{
    match filter {
        ImageFilter::Reference(pattern) => {
            let names = reference_candidates(&entry.image.reference, &entry.parsed);
            let ghost all = candidates(entry.image.reference@, image::opt_reference(entry.parsed));
            for i in 0..names.len()
                invariant
                    filter@ == FilterView::Reference(pattern@),
                    text::strs(names@) == all,
                    all == candidates(entry.image.reference@, image::opt_reference(entry.parsed)),
                    forall|j: int| 0 <= j < i ==> !glob::globs(pattern@, #[trigger] all[j]),
            {
                assert(all[i as int] == names@[i as int]@);
                if glob_match(pattern, &names[i]) {
                    assert(meets(*entry, FilterView::Reference(pattern@)));
                    return true;
                }
            }
            false
        },
        ImageFilter::Label(key, value) => match &entry.labels {
            Some(labels) => match labels.get(key) {
                Some(v) => match value {
                    Some(want) => str_eq(want, v),
                    None => true,
                },
                None => false,
            },
            None => false,
        },
    }
}

/// Whether an image meets all filters.
pub fn matches_all(entry: &ImageEntry, filters: &Vec<ImageFilter>) -> (r: bool)
    ensures
        r == meets_all(*entry, filter_views(filters@)),
{
    for i in 0..filters.len()
        invariant
            forall|j: int| 0 <= j < i ==> meets(*entry, #[trigger] filter_views(filters@)[j]),
    {
        assert(filter_views(filters@)[i as int] == filters@[i as int]@);
        if !image_matches(entry, &filters[i]) {
            return false;
        }
    }
    true
}

/// What a listing shows of an image.
#[derive(Debug)]
pub struct ImageRow {
    pub reference: String,
    pub repository: String,
    pub tag: String,
    pub digest: String,
    pub size: String,
    pub pulled: String,
}

/// What a listing shows of an image.
pub struct RowView {
    pub reference: Seq<char>,
    pub repository: Seq<char>,
    pub tag: Seq<char>,
    pub digest: Seq<char>,
    pub size: Seq<char>,
    pub pulled: Seq<char>,
}

impl View for ImageRow {
    type V = RowView;

    open spec fn view(&self) -> RowView {
        RowView {
            reference: self.reference@,
            repository: self.repository@,
            tag: self.tag@,
            digest: self.digest@,
            size: self.size@,
            pulled: self.pulled@,
        }
    }
}

/// What rows hold.
pub open spec fn row_views(l: Seq<ImageRow>) -> Seq<RowView> {
    l.map_values(|r: ImageRow| r@)
}

/// What a listing shows of an image.
pub open spec fn row_of(e: ImageEntry) -> RowView {
    let (repository, tag) = match image::opt_reference(e.parsed) {
        Some(p) => (
            p.registry + "/"@ + p.repository,
            match p.tag {
                Some(t) => t,
                None => "<none>"@,
            },
        ),
        None => (e.image.reference@, "<none>"@),
    };
    RowView {
        reference: e.image.reference@,
        repository,
        tag,
        digest: image::short_form(e.image.digest@),
        size: e.size@,
        pulled: e.pulled@,
    }
}

/// A row by a template, each placeholder replaced in turn.
pub open spec fn templated(row: RowView, format: Seq<char>) -> Seq<char> {
    let s = split::replaced(format, "{{.Repository}}"@, row.repository);
    let s = split::replaced(s, "{{.Tag}}"@, row.tag);
    let s = split::replaced(s, "{{.Digest}}"@, row.digest);
    let s = split::replaced(s, "{{.Size}}"@, row.size);
    let s = split::replaced(s, "{{.Pulled}}"@, row.pulled);
    split::replaced(s, "{{.Reference}}"@, row.reference)
}

impl ImageRow {
    /// What a listing shows of an image.
    pub fn from_stored(entry: &ImageEntry) -> (r: ImageRow)
        requires
            image::printable(entry.image.digest@),
        ensures
            r@ == row_of(*entry),
    {
        let (repository, tag) = match &entry.parsed {
            Some(p) => {
                let tag = match &p.tag {
                    Some(t) => t.clone(),
                    None => "<none>".to_string(),
                };
                (cat3(&p.registry, "/", &p.repository), tag)
            },
            None => (entry.image.reference.clone(), "<none>".to_string()),
        };
        ImageRow {
            reference: entry.image.reference.clone(),
            repository,
            tag,
            digest: short_digest(&entry.image.digest),
            size: entry.size.clone(),
            pulled: entry.pulled.clone(),
        }
    }

    /// The row by a template: each `{{.Field}}` gives way to what it names.
    pub fn apply_format(&self, format: &str) -> (r: String)
        ensures
            r@ == templated(self@, format@),
    {
        proof {
            reveal_strlit("{{.Repository}}");
            reveal_strlit("{{.Tag}}");
            reveal_strlit("{{.Digest}}");
            reveal_strlit("{{.Size}}");
            reveal_strlit("{{.Pulled}}");
            reveal_strlit("{{.Reference}}");
        }
        let s = replace(format, "{{.Repository}}", &self.repository);
        let s = replace(&s, "{{.Tag}}", &self.tag);
        let s = replace(&s, "{{.Digest}}", &self.digest);
        let s = replace(&s, "{{.Size}}", &self.size);
        let s = replace(&s, "{{.Pulled}}", &self.pulled);
        replace(&s, "{{.Reference}}", &self.reference)
    }
}

/// What `images` prints.
#[derive(Debug)]
pub enum ImagesOutput {
    Lines(Vec<String>),
    Table(Vec<ImageRow>),
}

/// What `images` prints.
pub enum OutputView {
    Lines(Seq<Seq<char>>),
    Table(Seq<RowView>),
}

impl View for ImagesOutput {
    type V = OutputView;

    open spec fn view(&self) -> OutputView {
        match self {
            ImagesOutput::Lines(l) => OutputView::Lines(text::strs(l@)),
            ImagesOutput::Table(l) => OutputView::Table(row_views(l@)),
        }
    }
}

/// The images that meet all filters, in order.
pub open spec fn kept(entries: Seq<ImageEntry>, filters: Seq<FilterView>) -> Seq<ImageEntry> {
    entries.filter(|e: ImageEntry| meets_all(e, filters))
}

/// What is listed of the images that meet the filters: their references, a line
/// by a template, or a table.
pub open spec fn listing(
    entries: Seq<ImageEntry>,
    filters: Seq<FilterView>,
    quiet: bool,
    format: Option<Seq<char>>,
) -> OutputView {
    let l = kept(entries, filters);
    if quiet {
        OutputView::Lines(l.map_values(|e: ImageEntry| e.image.reference@))
    } else {
        match format {
            Some(f) => OutputView::Lines(l.map_values(|e: ImageEntry| templated(row_of(e), f))),
            None => OutputView::Table(l.map_values(|e: ImageEntry| row_of(e))),
        }
    }
}

/// What `images` prints of the images of the store.
pub fn list_images(args: &ImagesArgs, entries: &Vec<ImageEntry>) -> (r: Result<ImagesOutput, String>)
    requires
        args.quiet || forall|i: int|
            0 <= i < entries@.len() && filters_of(text::strs(args.filter@)) is Ok && meets_all(
                entries@[i],
                filters_of(text::strs(args.filter@))->Ok_0,
            ) ==> image::printable((#[trigger] entries@[i]).image.digest@),
    ensures
        match filters_of(text::strs(args.filter@)) {
            Err(e) => r matches Err(x) && x@ == e,
            Ok(filters) => r matches Ok(out) && out@ == listing(
                entries@,
                filters,
                args.quiet,
                text::opt_str(args.format),
            ),
        },
{
    let filters = parse_filters(&args.filter)?;
    let ghost asked = filter_views(filters@);
    let ghost meet = |e: ImageEntry| meets_all(e, asked);
    let ghost line = |e: ImageEntry| e.image.reference@;
    let ghost row = |e: ImageEntry| row_of(e);
    let ghost all = entries@;
    let mut lines: Vec<String> = Vec::new();
    let mut rows: Vec<ImageRow> = Vec::new();
    proof {
        seqs::lemma_filter_none(all, meet);
        assert(text::strs(lines@) =~= all.take(0).filter(meet).map_values(line));
        assert(row_views(rows@) =~= all.take(0).filter(meet).map_values(row));
    }
    for i in 0..entries.len()
        invariant
            all == entries@,
            asked == filter_views(filters@),
            filters_of(text::strs(args.filter@)) == Ok::<Seq<FilterView>, Seq<char>>(asked),
            meet == (|e: ImageEntry| meets_all(e, asked)),
            line == (|e: ImageEntry| e.image.reference@),
            row == (|e: ImageEntry| row_of(e)),
            args.quiet || forall|j: int|
                0 <= j < all.len() && meets_all(all[j], asked) ==> image::printable(
                    (#[trigger] all[j]).image.digest@,
                ),
            text::strs(lines@) == all.take(i as int).filter(meet).map_values(line),
            !args.quiet ==> row_views(rows@) == all.take(i as int).filter(meet).map_values(row),
    {
        proof {
            seqs::lemma_filter_step(all, meet, i as int);
        }
        if matches_all(&entries[i], &filters) {
            let ghost lines_before = lines@;
            let ghost rows_before = rows@;
            let reference = entries[i].image.reference.clone();
            lines.push(reference);
            assert(text::strs(lines@) =~= text::strs(lines_before).push(reference@));
            if !args.quiet {
                let one = ImageRow::from_stored(&entries[i]);
                rows.push(one);
                assert(row_views(rows@) =~= row_views(rows_before).push(one@));
            }
            assert(all.take(i + 1).filter(meet).map_values(line) =~= all.take(i as int).filter(meet).map_values(
                line,
            ).push(line(all[i as int])));
            assert(all.take(i + 1).filter(meet).map_values(row) =~= all.take(i as int).filter(meet).map_values(
                row,
            ).push(row(all[i as int])));
        }
    }
    assert(all.take(all.len() as int) =~= all);
    if args.quiet {
        return Ok(ImagesOutput::Lines(lines));
    }
    match &args.format {
        None => Ok(ImagesOutput::Table(rows)),
        Some(format) => {
            let ghost chosen = kept(all, asked);
            let mut out: Vec<String> = Vec::new();
            assert(text::strs(out@) =~= chosen.take(0).map_values(|e: ImageEntry| templated(row_of(e), format@)));
            for i in 0..rows.len()
                invariant
                    row_views(rows@) == chosen.map_values(row),
                    row == (|e: ImageEntry| row_of(e)),
                    text::strs(out@) == chosen.take(i as int).map_values(
                        |e: ImageEntry| templated(row_of(e), format@),
                    ),
            {
                let ghost before = out@;
                assert(rows.len() == chosen.len()) by {
                    assert(row_views(rows@).len() == chosen.map_values(row).len());
                }
                assert(row_views(rows@)[i as int] == row_of(chosen[i as int]));
                let one = rows[i].apply_format(format);
                out.push(one);
                assert(text::strs(out@) =~= text::strs(before).push(one@));
                assert(chosen.take(i + 1).map_values(|e: ImageEntry| templated(row_of(e), format@))
                    =~= chosen.take(i as int).map_values(|e: ImageEntry| templated(row_of(e), format@)).push(
                    templated(row_of(chosen[i as int]), format@),
                ));
            }
            assert(rows.len() == chosen.len()) by {
                assert(row_views(rows@).len() == chosen.map_values(row).len());
            }
            assert(chosen.take(chosen.len() as int) =~= chosen);
            Ok(ImagesOutput::Lines(out))
        },
    }
}

/// A filter by a reference without `*` and `?` that names an image exactly is
/// met by that image.
pub proof fn lemma_exact_reference(e: ImageEntry)
    requires
        forall|i: int|
            0 <= i < e.image.reference@.len() ==> #[trigger] e.image.reference@[i] != '*' && e.image.reference@[i]
                != '?',
    ensures
        meets(e, FilterView::Reference(e.image.reference@)),
{
    let l = candidates(e.image.reference@, image::opt_reference(e.parsed));
    assert(l[0] == e.image.reference@);
    glob::lemma_plain_pattern(e.image.reference@, l[0]);
}

/// With no filter every image is listed.
pub proof fn lemma_no_filter(entries: Seq<ImageEntry>)
    ensures
        kept(entries, Seq::empty()) == entries,
    decreases entries.len(),
{
    reveal(Seq::filter);
    if entries.len() > 0 {
        lemma_no_filter(entries.drop_last());
        assert(entries.drop_last().push(entries.last()) =~= entries);
    } else {
        assert(kept(entries, Seq::empty()) =~= entries);
    }
}

/// A filter is a key and what it is to be: a pattern for the reference, or a label
/// with its value or without one. Any other key is refused.
pub proof fn lemma_filter_read(
    s: &str,
    value: Seq<char>,
    key: Seq<char>,
    r: Result<ImageFilter, String>,
)
    requires
        call_ensures(ImageFilter::parse, (s,), r),
    ensures
        s@ == "reference="@ + value ==> r is Ok && r->Ok_0@ == FilterView::Reference(value),
        s@ == "label="@ + value && !value.contains('=') ==> r is Ok && r->Ok_0@ == FilterView::Label(
            value,
            None,
        ),
        s@ == "label="@ + key + seq!['='] + value && !key.contains('=') ==> r is Ok && r->Ok_0@
            == FilterView::Label(key, Some(value)),
        !s@.contains('=') ==> r is Err,
{
    reveal_strlit("reference=");
    reveal_strlit("reference");
    reveal_strlit("label=");
    reveal_strlit("label");
    split::lemma_cut(s@, '=');
    if s@ == "reference="@ + value {
        assert forall|j: int| 0 <= j < 9 implies s@[j] != '=' && s@[j] == "reference"@[j] by {
            assert(s@[j] == "reference="@[j]);
        }
        assert(s@[9] == '=');
        split::lemma_cut_at(s@, '=', 9);
        assert(s@.take(9) =~= "reference"@);
        assert(s@.skip(10) =~= value);
    }
    let rest = if s@ == "label="@ + value && !value.contains('=') {
        value
    } else {
        key + seq!['='] + value
    };
    if s@ == "label="@ + rest {
        assert forall|j: int| 0 <= j < 5 implies s@[j] != '=' && s@[j] == "label"@[j] by {
            assert(s@[j] == "label="@[j]);
        }
        assert(s@[5] == '=');
        split::lemma_cut_at(s@, '=', 5);
        assert(s@.take(5) =~= "label"@);
        assert(s@.skip(6) =~= rest);
        assert("label"@.len() == 5 && "reference"@.len() == 9);
        split::lemma_cut(rest, '=');
        if rest == key + seq!['='] + value && !key.contains('=') {
            let n = key.len() as int;
            assert(rest[n] == '=');
            assert forall|j: int| 0 <= j < n implies rest[j] != '=' by {
                assert(rest[j] == key[j]);
                assert(key.contains(key[j]));
            }
            split::lemma_cut_at(rest, '=', n);
            assert(rest.take(n) =~= key);
            assert(rest.skip(n + 1) =~= value);
        }
    }
    if s@ == "label="@ + key + seq!['='] + value {
        assert(s@ =~= "label="@ + (key + seq!['='] + value));
    }
}

/// An image meets a filter on a label where it has the label, with the value that is
/// asked for, if one is.
pub proof fn lemma_label_filter(entry: ImageEntry, key: String, value: Option<String>, r: bool)
    requires
        call_ensures(image_matches, (&entry, &ImageFilter::Label(key, value)), r),
    ensures
        entry.labels is None ==> !r,
        entry.labels is Some && !entry.labels->0@.contains_key(key@) ==> !r,
        entry.labels is Some && entry.labels->0@.contains_key(key@) && value is None ==> r,
        entry.labels is Some && entry.labels->0@.contains_key(key@) && value is Some ==> (r
            <==> entry.labels->0@[key@]@ == value->0@),
{
    if entry.labels is Some {
        let m = strmap::texts(entry.labels->0@);
        assert(m.contains_key(key@) <==> entry.labels->0@.contains_key(key@));
        if m.contains_key(key@) {
            assert(m[key@] == entry.labels->0@[key@]@);
        }
    }
}

/// An image is listed exactly where it meets every filter, and only those that meet
/// them all are.
pub proof fn lemma_all_filters_met(entry: ImageEntry, filters: Vec<ImageFilter>, i: int, one: bool, r: bool)
    requires
        call_ensures(matches_all, (&entry, &filters), r),
        0 <= i < filters@.len(),
        call_ensures(image_matches, (&entry, &filters@[i]), one),
    ensures
        r ==> one,
        !one ==> !r,
{
    assert(filter_views(filters@)[i] == filters@[i]@);
}

/// An image goes by its reference, by its full name with its tag, and by the name of
/// its repository, whole or only its last part, with the tag or without; the tag is
/// `latest` where it has none.
pub proof fn lemma_names_of_an_image(reference: &str, p: ImageReference, r: Vec<String>)
    requires
        call_ensures(reference_candidates, (reference, &Some(p)), r),
    ensures
        text::strs(r@).contains(reference@),
        p.tag is Some ==> text::strs(r@).contains(
            p.registry@ + "/"@ + p.repository@ + ":"@ + p.tag->0@,
        ),
        p.tag is None ==> text::strs(r@).contains(
            p.registry@ + "/"@ + p.repository@ + ":"@ + "latest"@,
        ),
        text::strs(r@).contains(p.repository@),
{
    let s = text::strs(r@);
    assert(s[0] == reference@);
    assert(s[3] == p.repository@);
    assert(s.contains(s[1]) && s.contains(s[0]) && s.contains(s[3]));
}

/// A row shows the image's own reference and size, its tag or `<none>`, and its
/// repository with the registry before it.
pub proof fn lemma_row_of_an_image(entry: ImageEntry, r: ImageRow)
    requires
        image::printable(entry.image.digest@),
        call_ensures(ImageRow::from_stored, (&entry,), r),
    ensures
        r.reference@ == entry.image.reference@,
        r.size@ == entry.size@ && r.pulled@ == entry.pulled@,
        entry.parsed is None ==> r.repository@ == entry.image.reference@ && r.tag@ == "<none>"@,
        entry.parsed is Some ==> r.repository@ == entry.parsed->0.registry@ + "/"@
            + entry.parsed->0.repository@,
        entry.parsed is Some && entry.parsed->0.tag is Some ==> r.tag@ == entry.parsed->0.tag->0@,
        entry.parsed is Some && entry.parsed->0.tag is None ==> r.tag@ == "<none>"@,
{
    assert(r@ == row_of(entry));
}

/// What is listed is what meets the filters: with `--quiet` the references, in the
/// order of the store, and as many as there are.
pub proof fn lemma_quiet_lists_references(
    args: ImagesArgs,
    entries: Vec<ImageEntry>,
    r: ImagesOutput,
    i: int,
)
    requires
        args.quiet,
        call_ensures(list_images, (&args, &entries), Ok::<ImagesOutput, String>(r)),
        args.filter@.len() == 0,
        0 <= i < entries@.len(),
    ensures
        r matches ImagesOutput::Lines(l) && l@.len() == entries@.len() && l@[i]@
            == entries@[i].image.reference@,
{
    assert(text::strs(args.filter@).len() == 0);
    lemma_no_filter(entries@);
    let l = r->Lines_0;
    assert(r@ == OutputView::Lines(text::strs(l@)));
    assert(text::strs(l@).len() == l@.len());
    assert(text::strs(l@)[i] == l@[i]@);
}

/// What a filter leaves are images that meet it, and none that meets them all is
/// left out.
pub proof fn lemma_kept_meet_the_filters(entries: Seq<ImageEntry>, filters: Seq<FilterView>, e: ImageEntry)
    ensures
        kept(entries, filters).contains(e) <==> entries.contains(e) && forall|i: int|
            0 <= i < filters.len() ==> meets(e, #[trigger] filters[i]),
{
    seqs::lemma_filter_contains(entries, |e: ImageEntry| meets_all(e, filters), e);
}

/// Each filter is read, in its place, and one that cannot be read leaves none.
pub proof fn lemma_filters_in_order(specs: Vec<String>, i: int, r: Result<Vec<ImageFilter>, String>)
    requires
        call_ensures(parse_filters, (&specs,), r),
        0 <= i < specs@.len(),
    ensures
        filter_of(specs@[i]@) is Err ==> r is Err,
        r is Ok ==> (r->Ok_0)@.len() == specs@.len() && filter_of(specs@[i]@) == Ok::<
            FilterView,
            Seq<char>,
        >((r->Ok_0)@[i]@),
{
    lemma_filters_each(text::strs(specs@), i);
    assert(text::strs(specs@)[i] == specs@[i]@);
    if r is Ok {
        let l = (r->Ok_0)@;
        assert(filter_views(l).len() == l.len());
        assert(filter_views(l)[i] == l[i]@);
    }
}

/// Each filter is read in its place.
proof fn lemma_filters_each(l: Seq<Seq<char>>, i: int)
    requires
        0 <= i < l.len(),
    ensures
        filter_of(l[i]) is Err ==> filters_of(l) is Err,
        filters_of(l) is Ok ==> filters_of(l)->Ok_0.len() == l.len() && filter_of(l[i]) == Ok::<
            FilterView,
            Seq<char>,
        >(filters_of(l)->Ok_0[i]),
    decreases l.len(),
{
    let before = l.drop_last();
    if before.len() > 0 {
        lemma_filters_each(
            before,
            if i < before.len() {
                i
            } else {
                0
            },
        );
        if i < before.len() {
            assert(before[i] == l[i]);
        }
    } else {
        assert(filters_of(before) == Ok::<Seq<FilterView>, Seq<char>>(Seq::empty()));
    }
}

/// A format without a placeholder is shown as it is.
pub proof fn lemma_plain_format(row: ImageRow, format: &str, r: String)
    requires
        call_ensures(ImageRow::apply_format, (&row, format), r),
        !format@.contains('{'),
    ensures
        r@ == format@,
{
    reveal_strlit("{{.Repository}}");
    reveal_strlit("{{.Tag}}");
    reveal_strlit("{{.Digest}}");
    reveal_strlit("{{.Size}}");
    reveal_strlit("{{.Pulled}}");
    reveal_strlit("{{.Reference}}");
    lemma_no_brace(format@, "{{.Repository}}"@, row.repository@);
    lemma_no_brace(format@, "{{.Tag}}"@, row.tag@);
    lemma_no_brace(format@, "{{.Digest}}"@, row.digest@);
    lemma_no_brace(format@, "{{.Size}}"@, row.size@);
    lemma_no_brace(format@, "{{.Pulled}}"@, row.pulled@);
    lemma_no_brace(format@, "{{.Reference}}"@, row.reference@);
}

/// Without a brace there is no placeholder.
proof fn lemma_no_brace(s: Seq<char>, p: Seq<char>, with: Seq<char>)
    requires
        !s.contains('{'),
        p.len() > 0,
        p[0] == '{',
    ensures
        split::replaced(s, p, with) == s,
{
    if text::has_substring(s, p) {
        let i = choose|i: int| text::occurs_at(s, p, i);
        assert(s.subrange(i, i + p.len())[0] == s[i]);
        assert(s.contains(s[i]));
    }
    split::lemma_replaced_text(s, p, with);
}

/// An image goes by its repository with the tag, and by the last part of the repository
/// with the tag and without.
pub proof fn lemma_short_names_of_an_image(reference: &str, p: ImageReference, head: Seq<char>, leaf: Seq<char>, r: Vec<String>)
    requires
        call_ensures(reference_candidates, (reference, &Some(p)), r),
        p.tag is Some,
        !leaf.contains('/'),
        p.repository@ == head.push('/') + leaf,
    ensures
        text::strs(r@).contains(p.repository@ + ":"@ + p.tag->0@),
        text::strs(r@).contains(leaf),
        text::strs(r@).contains(leaf + ":"@ + p.tag->0@),
        r@.len() == 6,
{
    let s = text::strs(r@);
    split::lemma_pieces_of_both(head, '/', leaf);
    split::lemma_cut(leaf, '/');
    assert(split::pieces(leaf, '/') == seq![leaf]);
    assert(split::pieces(p.repository@, '/').last() == leaf);
    assert(s.len() == r@.len());
    assert(s.contains(s[2]) && s.contains(s[4]) && s.contains(s[5]));
}

} // verus!
