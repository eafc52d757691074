//! Registry snapshots and the text exposition encoder.
//!
//! `gather` deep-copies a registry's current state into an immutable
//! snapshot; `encode` renders a snapshot as the text exposition format:
//! one block per family in registration order, headed by HELP and TYPE
//! lines, then for every series in first-created order one line per
//! cumulative bucket, a `+Inf` line, a sum line and a count line. The
//! text is a pure function of the snapshot, so repeated scrapes of an
//! unchanged registry are byte-identical.

use vstd::prelude::*;
use vstd::string::*;
use crate::family::FamilyModel;
use crate::family::MetricFamily;
use crate::family::copy_string_vec;
use crate::family::copy_u64_vec;
use crate::family::tuple_view;
use crate::histogram::HistogramModel;
use crate::registry::Registry;
use crate::registry::RegistryModel;
use crate::text::dec_seq;
use crate::text::fixed_seq;
use crate::text::push_fixed;
use crate::text::push_u64;

verus! {

/// A consistent copy of one series: its label tuple and counters.
struct SeriesSnapshot {
    labels: Vec<String>,
    buckets: Vec<u64>,
    count: u64,
    sum: u64,
}

/// A copy of one family with all its series.
pub struct FamilySnapshot {
    name: String,
    help: String,
    label_names: Vec<String>,
    boundaries: Vec<u64>,
    series: Vec<SeriesSnapshot>,
}

impl View for FamilySnapshot {
    type V = FamilyModel;

    closed spec fn view(&self) -> FamilyModel {
        FamilyModel {
            name: self.name@,
            help: self.help@,
            label_names: tuple_view(self.label_names@),
            boundaries: self.boundaries@,
            tuples: self.series@.map_values(|s: SeriesSnapshot| tuple_view(s.labels@)),
            children: self.series@.map_values(
                |s: SeriesSnapshot|
                    HistogramModel {
                        boundaries: self.boundaries@,
                        buckets: s.buckets@,
                        count: s.count,
                        sum: s.sum,
                    },
            ),
        }
    }
}

/// An immutable snapshot of a registry's state.
pub struct Snapshot {
    families: Vec<FamilySnapshot>,
}

impl View for Snapshot {
    type V = RegistryModel;

    closed spec fn view(&self) -> RegistryModel {
        RegistryModel { families: self.families@.map_values(|f: FamilySnapshot| f@) }
    }
}

/// A deep copy of one family's current state.
fn snapshot_family(f: &MetricFamily) -> (r: FamilySnapshot)
    requires
        f@.wf(),
    ensures
        r@ == f@,
{
    let name = f.name().clone();
    let help = f.help().clone();
    let label_names = copy_string_vec(f.label_names());
    let boundaries = copy_u64_vec(f.boundaries());
    let ns = f.num_series();
    let mut series: Vec<SeriesSnapshot> = Vec::new();
    let mut s: usize = 0;
    while s < ns
        invariant
            f@.wf(),
            ns == f@.tuples.len(),
            s <= ns,
            series@.len() == s,
            forall|k: int|
                0 <= k < s ==> tuple_view((#[trigger] series@[k]).labels@) == f@.tuples[k],
            forall|k: int| 0 <= k < s ==> (#[trigger] series@[k]).buckets@ == f@.children[k].buckets,
            forall|k: int| 0 <= k < s ==> (#[trigger] series@[k]).count == f@.children[k].count,
            forall|k: int| 0 <= k < s ==> (#[trigger] series@[k]).sum == f@.children[k].sum,
        decreases ns - s,
    {
        let labels = copy_string_vec(f.series_labels(s));
        let h = f.series(s);
        let buckets = copy_u64_vec(h.buckets());
        let count = h.count();
        let sum = h.sum();
        series.push(SeriesSnapshot { labels, buckets, count, sum });
        s = s + 1;
    }
    let r = FamilySnapshot { name, help, label_names, boundaries, series };
    proof {
        assert(r@.tuples =~= f@.tuples);
        assert forall|k: int| 0 <= k < ns implies r@.children[k] == f@.children[k] by {
            assert(f@.children[k].boundaries == f@.boundaries);
        }
        assert(r@.children =~= f@.children);
        assert(r@ =~= f@);
    }
    r
}

impl Registry {
    /// An immutable snapshot of the current state of every family, in
    /// registration order.
    pub fn gather(&self) -> (snap: Snapshot)
        requires
            self@.wf(),
        ensures
            snap@ == self@,
            snap@.wf(),
    {
        let mut families: Vec<FamilySnapshot> = Vec::new();
        let nf = self.num_families();
        let mut i: usize = 0;
        while i < nf
            invariant
                self@.wf(),
                nf == self@.families.len(),
                i <= nf,
                families@.len() == i,
                forall|k: int| 0 <= k < i ==> (#[trigger] families@[k])@ == self@.families[k],
            decreases nf - i,
        {
            let snap_f = snapshot_family(self.family(i));
            families.push(snap_f);
            i = i + 1;
        }
        let snap = Snapshot { families };
        proof {
            assert(snap@.families =~= self@.families);
            assert(snap@ =~= self@);
        }
        snap
    }
}

/// One label pair as exposed: `name="value"`.
pub open spec fn spec_label_pair(name: Seq<char>, value: Seq<char>) -> Seq<char> {
    name + "=\""@ + value + "\""@
}

/// The `k` leading label pairs, each followed by a comma, as they stand
/// before `le` on bucket lines.
pub open spec fn spec_label_prefix(names: Seq<Seq<char>>, values: Seq<Seq<char>>, k: int) -> Seq<
    char,
>
    decreases k,
{
    if k <= 0 {
        Seq::empty()
    } else {
        spec_label_prefix(names, values, k - 1) + spec_label_pair(names[k - 1], values[k - 1])
            + ","@
    }
}

/// The `k` leading label pairs joined with commas, as they stand on sum
/// and count lines.
pub open spec fn spec_pairs_joined(names: Seq<Seq<char>>, values: Seq<Seq<char>>, k: int) -> Seq<
    char,
>
    decreases k,
{
    if k <= 0 {
        Seq::empty()
    } else if k == 1 {
        spec_label_pair(names[0], values[0])
    } else {
        spec_pairs_joined(names, values, k - 1) + ","@ + spec_label_pair(names[k - 1], values[k - 1])
    }
}

/// The label block on sum and count lines: nothing without labels, else
/// the joined pairs in braces.
pub open spec fn spec_plain_labels(names: Seq<Seq<char>>, values: Seq<Seq<char>>) -> Seq<char> {
    if names.len() == 0 {
        Seq::empty()
    } else {
        "{"@ + spec_pairs_joined(names, values, names.len() as int) + "}"@
    }
}

/// One cumulative bucket line.
pub open spec fn spec_bucket_line(
    name: Seq<char>,
    prefix: Seq<char>,
    boundary: u64,
    cnt: u64,
) -> Seq<char> {
    name + "_bucket{"@ + prefix + "le=\""@ + fixed_seq(boundary as int) + "\"} "@ + dec_seq(
        cnt as int,
    ) + "\n"@
}

/// The `j` leading bucket lines of one series.
pub open spec fn spec_bucket_lines(
    name: Seq<char>,
    prefix: Seq<char>,
    boundaries: Seq<u64>,
    buckets: Seq<u64>,
    j: int,
) -> Seq<char>
    decreases j,
{
    if j <= 0 {
        Seq::empty()
    } else {
        spec_bucket_lines(name, prefix, boundaries, buckets, j - 1) + spec_bucket_line(
            name,
            prefix,
            boundaries[j - 1],
            buckets[j - 1],
        )
    }
}

/// The whole text block of one series: every bucket line, the `+Inf`
/// line, the sum line and the count line.
pub open spec fn spec_series_text(
    name: Seq<char>,
    names: Seq<Seq<char>>,
    values: Seq<Seq<char>>,
    boundaries: Seq<u64>,
    h: HistogramModel,
) -> Seq<char> {
    let prefix = spec_label_prefix(names, values, names.len() as int);
    let plain = spec_plain_labels(names, values);
    spec_bucket_lines(name, prefix, boundaries, h.buckets, boundaries.len() as int) + name
        + "_bucket{"@ + prefix + "le=\"+Inf\"} "@ + dec_seq(h.count as int) + "\n"@ + name + "_sum"@
        + plain + " "@ + fixed_seq(h.sum as int) + "\n"@ + name + "_count"@ + plain + " "@
        + dec_seq(h.count as int) + "\n"@
}

/// The `k` leading series blocks of one family, in first-created order.
pub open spec fn spec_series_blocks(f: FamilyModel, k: int) -> Seq<char>
    decreases k,
{
    if k <= 0 {
        Seq::empty()
    } else {
        spec_series_blocks(f, k - 1) + spec_series_text(
            f.name,
            f.label_names,
            f.tuples[k - 1],
            f.boundaries,
            f.children[k - 1],
        )
    }
}

/// The HELP and TYPE header lines of one family.
pub open spec fn spec_family_header(f: FamilyModel) -> Seq<char> {
    "# HELP "@ + f.name + " "@ + f.help + "\n"@ + "# TYPE "@ + f.name + " histogram\n"@
}

/// The whole text block of one family: headers, then every series.
pub open spec fn spec_family_text(f: FamilyModel) -> Seq<char> {
    spec_family_header(f) + spec_series_blocks(f, f.tuples.len() as int)
}

/// The `k` leading family blocks, in registration order.
pub open spec fn spec_families_text(r: RegistryModel, k: int) -> Seq<char>
    decreases k,
{
    if k <= 0 {
        Seq::empty()
    } else {
        spec_families_text(r, k - 1) + spec_family_text(r.families[k - 1])
    }
}

/// The full exposition text of a snapshot.
pub open spec fn spec_encode(r: RegistryModel) -> Seq<char> {
    spec_families_text(r, r.families.len() as int)
}

/// Appends every label pair followed by a comma.
fn push_label_prefix(out: &mut String, names: &Vec<String>, values: &Vec<String>)
    requires
        names@.len() == values@.len(),
    ensures
        final(out)@ == old(out)@ + spec_label_prefix(
            tuple_view(names@),
            tuple_view(values@),
            names@.len() as int,
        ),
{
    let n = names.len();
    let mut k: usize = 0;
    assert(out@ =~= old(out)@ + spec_label_prefix(tuple_view(names@), tuple_view(values@), 0));
    while k < n
        invariant
            n == names@.len(),
            names@.len() == values@.len(),
            k <= n,
            out@ == old(out)@ + spec_label_prefix(tuple_view(names@), tuple_view(values@), k as int),
        decreases n - k,
    {
        out.append(names[k].as_str());
        out.append("=\"");
        out.append(values[k].as_str());
        out.append("\"");
        out.append(",");
        assert(out@ =~= old(out)@ + spec_label_prefix(
            tuple_view(names@),
            tuple_view(values@),
            k as int + 1,
        ));
        k = k + 1;
    }
}

/// Appends the label block of sum and count lines.
fn push_plain_labels(out: &mut String, names: &Vec<String>, values: &Vec<String>)
    requires
        names@.len() == values@.len(),
    ensures
        final(out)@ == old(out)@ + spec_plain_labels(tuple_view(names@), tuple_view(values@)),
{
    let n = names.len();
    if n == 0 {
        assert(out@ =~= old(out)@ + spec_plain_labels(tuple_view(names@), tuple_view(values@)));
        return ;
    }
    out.append("{");
    let mut k: usize = 0;
    while k < n
        invariant
            n == names@.len(),
            names@.len() == values@.len(),
            k <= n,
            out@ == old(out)@ + "{"@ + spec_pairs_joined(
                tuple_view(names@),
                tuple_view(values@),
                k as int,
            ),
        decreases n - k,
    {
        if k > 0 {
            out.append(",");
        }
        out.append(names[k].as_str());
        out.append("=\"");
        out.append(values[k].as_str());
        out.append("\"");
        assert(out@ =~= old(out)@ + "{"@ + spec_pairs_joined(
            tuple_view(names@),
            tuple_view(values@),
            k as int + 1,
        ));
        k = k + 1;
    }
    out.append("}");
    assert(out@ =~= old(out)@ + spec_plain_labels(tuple_view(names@), tuple_view(values@)));
}

/// Appends the whole text block of one series.
#[verifier::rlimit(60)]
fn push_series(
    out: &mut String,
    name: &String,
    label_names: &Vec<String>,
    boundaries: &Vec<u64>,
    series: &SeriesSnapshot,
)
    requires
        label_names@.len() == series.labels@.len(),
        boundaries@.len() == series.buckets@.len(),
    ensures
        final(out)@ == old(out)@ + spec_series_text(
            name@,
            tuple_view(label_names@),
            tuple_view(series.labels@),
            boundaries@,
            (HistogramModel {
                boundaries: boundaries@,
                buckets: series.buckets@,
                count: series.count,
                sum: series.sum,
            }),
        ),
{
    let ghost gnames = tuple_view(label_names@);
    let ghost gvalues = tuple_view(series.labels@);
    let mut prefix = String::new();
    push_label_prefix(&mut prefix, label_names, &series.labels);
    assert(prefix@ =~= spec_label_prefix(gnames, gvalues, gnames.len() as int));
    let nb = boundaries.len();
    let mut j: usize = 0;
    assert(out@ =~= old(out)@ + spec_bucket_lines(name@, prefix@, boundaries@, series.buckets@, 0));
    while j < nb
        invariant
            nb == boundaries@.len(),
            boundaries@.len() == series.buckets@.len(),
            j <= nb,
            prefix@ == spec_label_prefix(gnames, gvalues, gnames.len() as int),
            out@ == old(out)@ + spec_bucket_lines(
                name@,
                prefix@,
                boundaries@,
                series.buckets@,
                j as int,
            ),
        decreases nb - j,
    {
        out.append(name.as_str());
        out.append("_bucket{");
        out.append(prefix.as_str());
        out.append("le=\"");
        push_fixed(out, boundaries[j]);
        out.append("\"} ");
        push_u64(out, series.buckets[j]);
        out.append("\n");
        assert(out@ =~= old(out)@ + spec_bucket_lines(
            name@,
            prefix@,
            boundaries@,
            series.buckets@,
            j as int + 1,
        ));
        j = j + 1;
    }
    let ghost after_buckets = out@;
    out.append(name.as_str());
    out.append("_bucket{");
    out.append(prefix.as_str());
    out.append("le=\"+Inf\"} ");
    push_u64(out, series.count);
    out.append("\n");
    assert(out@ =~= after_buckets + name@ + "_bucket{"@ + prefix@ + "le=\"+Inf\"} "@ + dec_seq(
        series.count as int,
    ) + "\n"@);
    let ghost after_inf = out@;
    out.append(name.as_str());
    out.append("_sum");
    push_plain_labels(out, label_names, &series.labels);
    out.append(" ");
    push_fixed(out, series.sum);
    out.append("\n");
    assert(out@ =~= after_inf + name@ + "_sum"@ + spec_plain_labels(gnames, gvalues) + " "@
        + fixed_seq(series.sum as int) + "\n"@);
    let ghost after_sum = out@;
    out.append(name.as_str());
    out.append("_count");
    push_plain_labels(out, label_names, &series.labels);
    out.append(" ");
    push_u64(out, series.count);
    out.append("\n");
    assert(out@ =~= after_sum + name@ + "_count"@ + spec_plain_labels(gnames, gvalues) + " "@
        + dec_seq(series.count as int) + "\n"@);
    assert(out@ =~= old(out)@ + spec_series_text(
        name@,
        gnames,
        gvalues,
        boundaries@,
        (HistogramModel {
            boundaries: boundaries@,
            buckets: series.buckets@,
            count: series.count,
            sum: series.sum,
        }),
    ));
}

/// Appends the whole text block of one family.
fn push_family(out: &mut String, f: &FamilySnapshot)
    requires
        f@.wf(),
    ensures
        final(out)@ == old(out)@ + spec_family_text(f@),
{
    out.append("# HELP ");
    out.append(f.name.as_str());
    out.append(" ");
    out.append(f.help.as_str());
    out.append("\n");
    out.append("# TYPE ");
    out.append(f.name.as_str());
    out.append(" histogram\n");
    assert(out@ =~= old(out)@ + spec_family_header(f@));
    let ns = f.series.len();
    let mut s: usize = 0;
    while s < ns
        invariant
            f@.wf(),
            ns == f.series@.len(),
            s <= ns,
            out@ == old(out)@ + spec_family_header(f@) + spec_series_blocks(f@, s as int),
        decreases ns - s,
    {
        proof {
            assert(f@.tuples[s as int] == tuple_view(f.series@[s as int].labels@));
            assert(f@.children[s as int] == (HistogramModel {
                boundaries: f.boundaries@,
                buckets: f.series@[s as int].buckets@,
                count: f.series@[s as int].count,
                sum: f.series@[s as int].sum,
            }));
            assert(f@.tuples[s as int].len() == f@.label_names.len());
            assert(f@.children[s as int].buckets.len() == f@.children[s as int].boundaries.len());
        }
        push_series(out, &f.name, &f.label_names, &f.boundaries, &f.series[s]);
        assert(out@ =~= old(out)@ + spec_family_header(f@) + spec_series_blocks(f@, s as int + 1));
        s = s + 1;
    }
    assert(out@ =~= old(out)@ + spec_family_text(f@));
}

/// Encodes a snapshot as the text exposition format. The result is a
/// pure function of the snapshot's state, so encoding cannot fail and
/// repeated encodings of one snapshot agree byte for byte.
pub fn encode(snap: &Snapshot) -> (out: String)
    requires
        snap@.wf(),
    ensures
        out@ == spec_encode(snap@),
{
    let mut out = String::new();
    let nf = snap.families.len();
    let mut i: usize = 0;
    assert(out@ =~= spec_families_text(snap@, 0));
    while i < nf
        invariant
            snap@.wf(),
            nf == snap.families@.len(),
            i <= nf,
            out@ == spec_families_text(snap@, i as int),
        decreases nf - i,
    {
        proof {
            assert(snap@.families[i as int] == snap.families@[i as int]@);
            assert(snap@.families[i as int].wf());
        }
        push_family(&mut out, &snap.families[i]);
        assert(out@ =~= spec_families_text(snap@, i as int + 1));
        i = i + 1;
    }
    out
}

/// Law: the exposition text is a function of the gathered state alone,
/// so scraping twice without intervening observations yields
/// byte-identical text.
pub proof fn lemma_encode_deterministic(a: RegistryModel, b: RegistryModel)
    requires
        a == b,
    ensures
        spec_encode(a) == spec_encode(b),
{
}

} // verus!
