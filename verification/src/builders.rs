//! Builders for search queries.
//!
//! A search query is a free-text term followed by `name:v1,v2,...` filter
//! clauses separated by single spaces. Filters collect values per name in
//! the order the calls were made; writing to the same name appends to its
//! value list.

use vstd::prelude::*;

use crate::{IntoParameterValue, has_key, key_index, keys_unique, lemma_key_index_found,
    lemma_key_index_in_range};
use vstd::string::{StrSliceExecFns, StringExecFns};

verus! {

/// The views of a value list.
pub open spec fn values_view(vs: Seq<String>) -> Seq<Seq<char>> {
    vs.map_values(|s: String| s@)
}

/// The view of a filter collection: names with their value lists, in
/// insertion order.
pub open spec fn filters_view(fs: Seq<(String, Vec<String>)>) -> Seq<(Seq<char>, Seq<Seq<char>>)> {
    fs.map_values(|p: (String, Vec<String>)| (p.0@, values_view(p.1@)))
}

/// The filters after appending one value under a name: an existing name
/// keeps its place and grows its list, a new name goes to the end.
pub open spec fn filters_add(
    fs: Seq<(Seq<char>, Seq<Seq<char>>)>,
    name: Seq<char>,
    value: Seq<char>,
) -> Seq<(Seq<char>, Seq<Seq<char>>)> {
    if has_key(fs, name) {
        let i = key_index(fs, name);
        fs.update(i, (name, fs[i].1.push(value)))
    } else {
        fs.push((name, seq![value]))
    }
}

/// The filters after replacing a name's whole value list: an existing name
/// keeps its place, a new name goes to the end.
pub open spec fn filters_put(
    fs: Seq<(Seq<char>, Seq<Seq<char>>)>,
    name: Seq<char>,
    values: Seq<Seq<char>>,
) -> Seq<(Seq<char>, Seq<Seq<char>>)> {
    if has_key(fs, name) {
        fs.update(key_index(fs, name), (name, values))
    } else {
        fs.push((name, values))
    }
}

/// The filters after replacing every name of `gs` in turn.
pub open spec fn filters_extend(
    fs: Seq<(Seq<char>, Seq<Seq<char>>)>,
    gs: Seq<(Seq<char>, Seq<Seq<char>>)>,
) -> Seq<(Seq<char>, Seq<Seq<char>>)>
    decreases gs.len(),
{
    if gs.len() == 0 {
        fs
    } else {
        filters_extend(filters_put(fs, gs[0].0, gs[0].1), gs.drop_first())
    }
}

/// The pieces joined with a separator, nothing around a single piece.
pub open spec fn join_with(ps: Seq<Seq<char>>, sep: char) -> Seq<char>
    decreases ps.len(),
{
    if ps.len() == 0 {
        Seq::empty()
    } else if ps.len() == 1 {
        ps[0]
    } else {
        ps[0] + seq![sep] + join_with(ps.drop_first(), sep)
    }
}

/// One filter clause: `name:v1,v2,...`.
pub open spec fn filter_piece(f: (Seq<char>, Seq<Seq<char>>)) -> Seq<char> {
    f.0 + seq![':'] + join_with(f.1, ',')
}

/// The pieces of a built query: the free-text term when one was given, then
/// one clause per filter.
pub open spec fn query_pieces(q: Seq<char>, fs: Seq<(Seq<char>, Seq<Seq<char>>)>) -> Seq<
    Seq<char>,
> {
    (if q.len() == 0 {
        Seq::<Seq<char>>::empty()
    } else {
        seq![q]
    }) + fs.map_values(|f: (Seq<char>, Seq<Seq<char>>)| filter_piece(f))
}

/// The full text of a built query.
pub open spec fn rendered_query(q: Seq<char>, fs: Seq<(Seq<char>, Seq<Seq<char>>)>) -> Seq<char> {
    join_with(query_pieces(q, fs), ' ')
}

pub proof fn lemma_join_with_snoc(ps: Seq<Seq<char>>, p: Seq<char>, sep: char)
    ensures
        join_with(ps.push(p), sep) == if ps.len() == 0 {
            p
        } else {
            join_with(ps, sep) + seq![sep] + p
        },
    decreases ps.len(),
{
    if ps.len() == 0 {
        assert(ps.push(p).len() == 1);
        assert(join_with(ps.push(p), sep) == ps.push(p)[0]);
    } else {
        lemma_join_with_snoc(ps.drop_first(), p, sep);
        assert(ps.push(p).drop_first() =~= ps.drop_first().push(p));
        assert(ps.push(p)[0] == ps[0]);
        if ps.len() == 1 {
            assert(ps.drop_first().len() == 0);
            assert(join_with(ps.push(p), sep) == ps[0] + seq![sep] + p);
            assert(join_with(ps, sep) == ps[0]);
        } else {
            assert(ps[0] + seq![sep] + (join_with(ps.drop_first(), sep) + seq![sep] + p) =~= (ps[0]
                + seq![sep] + join_with(ps.drop_first(), sep)) + seq![sep] + p);
        }
    }
}

proof fn lemma_filters_add_unique(
    fs: Seq<(Seq<char>, Seq<Seq<char>>)>,
    name: Seq<char>,
    value: Seq<char>,
)
    requires
        keys_unique(fs),
    ensures
        keys_unique(filters_add(fs, name, value)),
{
    if has_key(fs, name) {
        lemma_key_index_in_range(fs, name);
        let r = filters_add(fs, name, value);
        assert forall|a: int, b: int| 0 <= a < b < r.len() implies #[trigger] r[a].0
            != #[trigger] r[b].0 by {
            assert(fs[a].0 != fs[b].0);
        }
    } else {
        let r = filters_add(fs, name, value);
        assert forall|a: int, b: int| 0 <= a < b < r.len() implies #[trigger] r[a].0
            != #[trigger] r[b].0 by {
            if b == fs.len() {
                assert(r[a].0 == fs[a].0);
                assert(!(exists|i: int| 0 <= i < fs.len() && fs[i].0 == name));
            } else {
                assert(fs[a].0 != fs[b].0);
            }
        }
    }
}

proof fn lemma_filters_put_unique(
    fs: Seq<(Seq<char>, Seq<Seq<char>>)>,
    name: Seq<char>,
    values: Seq<Seq<char>>,
)
    requires
        keys_unique(fs),
    ensures
        keys_unique(filters_put(fs, name, values)),
{
    if has_key(fs, name) {
        lemma_key_index_in_range(fs, name);
        let r = filters_put(fs, name, values);
        assert forall|a: int, b: int| 0 <= a < b < r.len() implies #[trigger] r[a].0
            != #[trigger] r[b].0 by {
            assert(fs[a].0 != fs[b].0);
            if a == key_index(fs, name) {
                assert(r[a].0 == name);
                assert(fs[a].0 == name);
            }
            if b == key_index(fs, name) {
                assert(r[b].0 == name);
                assert(fs[b].0 == name);
            }
        }
    } else {
        let r = filters_put(fs, name, values);
        assert forall|a: int, b: int| 0 <= a < b < r.len() implies #[trigger] r[a].0
            != #[trigger] r[b].0 by {
            if b == fs.len() {
                assert(r[a].0 == fs[a].0);
                assert(!(exists|i: int| 0 <= i < fs.len() && fs[i].0 == name));
            } else {
                assert(fs[a].0 != fs[b].0);
            }
        }
    }
}

pub proof fn lemma_filters_extend_snoc(
    fs: Seq<(Seq<char>, Seq<Seq<char>>)>,
    gs: Seq<(Seq<char>, Seq<Seq<char>>)>,
    g: (Seq<char>, Seq<Seq<char>>),
)
    ensures
        filters_extend(fs, gs.push(g)) == filters_put(filters_extend(fs, gs), g.0, g.1),
    decreases gs.len(),
{
    if gs.len() == 0 {
        assert(gs.push(g)[0] == g);
        assert(gs.push(g).drop_first() =~= Seq::<(Seq<char>, Seq<Seq<char>>)>::empty());
        assert(filters_extend(filters_put(fs, g.0, g.1), gs.push(g).drop_first()) == filters_put(
            fs,
            g.0,
            g.1,
        ));
    } else {
        lemma_filters_extend_snoc(filters_put(fs, gs[0].0, gs[0].1), gs.drop_first(), g);
        assert(gs.push(g)[0] == gs[0]);
        assert(gs.push(g).drop_first() =~= gs.drop_first().push(g));
    }
}

proof fn lemma_filters_extend_unique(
    fs: Seq<(Seq<char>, Seq<Seq<char>>)>,
    gs: Seq<(Seq<char>, Seq<Seq<char>>)>,
)
    requires
        keys_unique(fs),
    ensures
        keys_unique(filters_extend(fs, gs)),
    decreases gs.len(),
{
    if gs.len() > 0 {
        lemma_filters_put_unique(fs, gs[0].0, gs[0].1);
        lemma_filters_extend_unique(filters_put(fs, gs[0].0, gs[0].1), gs.drop_first());
    }
}

/// Append one value under a name, keeping names unique.
fn add_filter_value(filters: &mut Vec<(String, Vec<String>)>, name: String, value: String)
    requires
        keys_unique(filters_view(old(filters)@)),
    ensures
        filters_view(final(filters)@) == filters_add(filters_view(old(filters)@), name@, value@),
        keys_unique(filters_view(final(filters)@)),
{
    let ghost old_view = filters_view(filters@);
    let mut i: usize = 0;
    while i < filters.len()
        invariant
            filters_view(filters@) == old_view,
            old_view == filters_view(old(filters)@),
            keys_unique(old_view),
            i <= filters@.len(),
            forall|j: int| 0 <= j < i ==> old_view[j].0 != name@,
        decreases filters@.len() - i,
    {
        if filters[i].0 == name {
            proof {
                assert(old_view[i as int].0 == name@);
                assert(has_key(old_view, name@));
                lemma_key_index_found(old_view, name@, i as int);
                lemma_filters_add_unique(old_view, name@, value@);
            }
            let entry = filters.remove(i);
            let mut values = entry.1;
            values.push(value);
            filters.insert(i, (entry.0, values));
            proof {
                assert(filters_view(filters@) =~~= old_view.update(
                    i as int,
                    (name@, old_view[i as int].1.push(value@)),
                ));
            }
            return ;
        }
        i = i + 1;
    }
    proof {
        assert(!has_key(old_view, name@));
        lemma_filters_add_unique(old_view, name@, value@);
    }
    let mut values: Vec<String> = Vec::new();
    values.push(value);
    filters.push((name, values));
    proof {
        assert(values_view(seq![value]) =~= seq![value@]);
        assert(filters_view(filters@) =~~= old_view.push((name@, seq![value@])));
    }
}

/// Replace a name's whole value list, keeping names unique.
fn put_filter(filters: &mut Vec<(String, Vec<String>)>, name: String, values: Vec<String>)
    requires
        keys_unique(filters_view(old(filters)@)),
    ensures
        filters_view(final(filters)@) == filters_put(
            filters_view(old(filters)@),
            name@,
            values_view(values@),
        ),
        keys_unique(filters_view(final(filters)@)),
{
    let ghost old_view = filters_view(filters@);
    let mut i: usize = 0;
    while i < filters.len()
        invariant
            filters_view(filters@) == old_view,
            old_view == filters_view(old(filters)@),
            keys_unique(old_view),
            i <= filters@.len(),
            forall|j: int| 0 <= j < i ==> old_view[j].0 != name@,
        decreases filters@.len() - i,
    {
        if filters[i].0 == name {
            proof {
                assert(old_view[i as int].0 == name@);
                assert(has_key(old_view, name@));
                lemma_key_index_found(old_view, name@, i as int);
                lemma_filters_put_unique(old_view, name@, values_view(values@));
            }
            filters.remove(i);
            filters.insert(i, (name, values));
            proof {
                assert(filters_view(filters@) =~~= old_view.update(
                    i as int,
                    (name@, values_view(values@)),
                ));
            }
            return ;
        }
        i = i + 1;
    }
    proof {
        assert(!has_key(old_view, name@));
        lemma_filters_put_unique(old_view, name@, values_view(values@));
    }
    filters.push((name, values));
    proof {
        assert(filters_view(filters@) =~~= old_view.push((name@, values_view(values@))));
    }
}

/// Collects `cert.subject.cn` values for the `ssl` clause of a search query.
pub struct SslFilterBuilder {
    filters: Vec<(String, Vec<String>)>,
}

impl SslFilterBuilder {
    /// The collected filters: names with their value lists.
    pub closed spec fn spec_filters(&self) -> Seq<(Seq<char>, Seq<Seq<char>>)> {
        filters_view(self.filters@)
    }

    /// Filter names never repeat.
    pub open spec fn wf(&self) -> bool {
        keys_unique(self.spec_filters())
    }

    /// Hand the collected filters over.
    pub fn build(self) -> (r: Vec<(String, Vec<String>)>)
        ensures
            filters_view(r@) == self.spec_filters(),
    {
        self.filters
    }

    /// Require one more certificate subject common name.
    pub fn cert_subject_cn(self, value: impl IntoParameterValue) -> (r: Self)
        requires
            self.wf(),
        ensures
            r.spec_filters() == filters_add(
                self.spec_filters(),
                "cert.subject.cn"@,
                value.query_value(),
            ),
            r.wf(),
    {
        let rendered = value.into_parameter_value();
        let mut b = self;
        add_filter_value(&mut b.filters, String::from_str("cert.subject.cn"), rendered.0);
        b
    }
}

impl Default for SslFilterBuilder {
    fn default() -> (r: Self)
        ensures
            r.spec_filters() == Seq::<(Seq<char>, Seq<Seq<char>>)>::empty(),
            r.wf(),
    {
        let r = SslFilterBuilder { filters: Vec::new() };
        proof {
            assert(r.spec_filters() =~= Seq::<(Seq<char>, Seq<Seq<char>>)>::empty());
        }
        r
    }
}

/// Builds the query string of a search request: a free-text term plus
/// `name:value,...` filter clauses.
pub struct SearchQueryBuilder {
    query: String,
    filters: Vec<(String, Vec<String>)>,
}

impl SearchQueryBuilder {
    /// The free-text term.
    pub closed spec fn spec_query(&self) -> Seq<char> {
        self.query@
    }

    /// The collected filters: names with their value lists.
    pub closed spec fn spec_filters(&self) -> Seq<(Seq<char>, Seq<Seq<char>>)> {
        filters_view(self.filters@)
    }

    /// Filter names never repeat.
    pub open spec fn wf(&self) -> bool {
        keys_unique(self.spec_filters())
    }

    /// Replace the free-text term.
    pub fn query(self, query: impl IntoParameterValue) -> (r: Self)
        ensures
            r.spec_query() == query.query_value(),
            r.spec_filters() == self.spec_filters(),
            r.wf() == self.wf(),
    {
        let rendered = query.into_parameter_value();
        SearchQueryBuilder { query: rendered.0, filters: self.filters }
    }

    /// Require one more port value.
    pub fn port(self, value: impl IntoParameterValue) -> (r: Self)
        requires
            self.wf(),
        ensures
            r.spec_query() == self.spec_query(),
            r.spec_filters() == filters_add(self.spec_filters(), "port"@, value.query_value()),
            r.wf(),
    {
        let rendered = value.into_parameter_value();
        let mut b = self;
        add_filter_value(&mut b.filters, String::from_str("port"), rendered.0);
        b
    }

    /// Require one more product value.
    pub fn product(self, filter: impl IntoParameterValue) -> (r: Self)
        requires
            self.wf(),
        ensures
            r.spec_query() == self.spec_query(),
            r.spec_filters() == filters_add(self.spec_filters(), "product"@, filter.query_value()),
            r.wf(),
    {
        let rendered = filter.into_parameter_value();
        let mut b = self;
        add_filter_value(&mut b.filters, String::from_str("product"), rendered.0);
        b
    }

    /// Merge in the filters collected by an [`SslFilterBuilder`] the closure
    /// fills: each of its names replaces the same name here wholly.
    pub fn ssl<F: FnOnce(SslFilterBuilder) -> SslFilterBuilder>(self, closure: F) -> (r: Self)
        requires
            self.wf(),
            forall|b: SslFilterBuilder|
                b.spec_filters() == Seq::<(Seq<char>, Seq<Seq<char>>)>::empty()
                    ==> call_requires(closure, (b,)),
        ensures
            r.spec_query() == self.spec_query(),
            r.wf(),
            exists|seed: SslFilterBuilder, out: SslFilterBuilder|
                seed.spec_filters() == Seq::<(Seq<char>, Seq<Seq<char>>)>::empty()
                    && #[trigger] call_ensures(closure, (seed,), out) && r.spec_filters()
                    == filters_extend(self.spec_filters(), out.spec_filters()),
    {
        let empty = SslFilterBuilder::default();
        let ghost seed = empty;
        let out = closure(empty);
        let ghost out_value = out;
        let ghost total = out.spec_filters();
        let mut collected = out.build();
        let mut b = self;
        let ghost base = self.spec_filters();
        let ghost mut k: int = 0;
        proof {
            assert(total.take(0) =~= Seq::<(Seq<char>, Seq<Seq<char>>)>::empty());
        }
        while collected.len() > 0
            invariant
                0 <= k,
                k + collected@.len() == total.len(),
                filters_view(collected@) == total.skip(k),
                keys_unique(filters_view(b.filters@)),
                filters_view(b.filters@) == filters_extend(base, total.take(k)),
                b.query@ == self.spec_query(),
            decreases collected@.len(),
        {
            let ghost before = filters_view(collected@);
            let pair = collected.remove(0);
            proof {
                assert(filters_view(collected@) =~~= before.drop_first());
                assert(before.drop_first() =~~= total.skip(k + 1));
                assert(before[0] == total.skip(k)[0]);
                assert(total.skip(k)[0] == total[k]);
                assert(before[0] == (pair.0@, values_view(pair.1@)));
                assert(total.take(k + 1) =~~= total.take(k).push(total[k]));
                lemma_filters_extend_snoc(base, total.take(k), total[k]);
            }
            put_filter(&mut b.filters, pair.0, pair.1);
            proof {
                k = k + 1;
            }
        }
        proof {
            assert(total.take(total.len() as int) =~= total);
            assert(call_ensures(closure, (seed,), out_value));
        }
        b
    }

    /// Render the query: the free-text term first when one was given, then
    /// each filter clause, separated by single spaces.
    pub fn build(self) -> (r: String)
        ensures
            r@ == rendered_query(self.spec_query(), self.spec_filters()),
    {
        let mut out = String::new();
        let mut first: bool = true;
        let ghost pieces = query_pieces(self.spec_query(), self.spec_filters());
        let ghost head_count: int = if self.spec_query().len() == 0 {
            0
        } else {
            1
        };
        if !self.query.as_str().is_empty() {
            out.append(self.query.as_str());
            first = false;
            proof {
                assert(pieces[0] == self.spec_query());
                assert(pieces.take(1) =~= seq![self.spec_query()]);
                assert(join_with(pieces.take(1), ' ') == self.spec_query());
            }
        } else {
            proof {
                assert(pieces.take(0) =~= Seq::<Seq<char>>::empty());
            }
        }
        let mut i: usize = 0;
        while i < self.filters.len()
            invariant
                i <= self.filters@.len(),
                pieces == query_pieces(self.spec_query(), self.spec_filters()),
                head_count == if self.spec_query().len() == 0 { 0int } else { 1int },
                pieces.len() == head_count + self.filters@.len(),
                out@ == join_with(pieces.take(head_count + i), ' '),
                first == (head_count + i == 0),
            decreases self.filters@.len() - i,
        {
            if first {
                first = false;
            } else {
                crate::encoding::push_char(&mut out, ' ');
            }
            let name = &self.filters[i].0;
            out.append(name.as_str());
            crate::encoding::push_char(&mut out, ':');
            let ghost piece = pieces[head_count + i];
            let ghost vs = filters_view(self.filters@)[i as int].1;
            let ghost piece_head = out@;
            let values = &self.filters[i].1;
            let mut j: usize = 0;
            proof {
                assert(piece == filter_piece(filters_view(self.filters@)[i as int]));
                assert(vs.take(0) =~= Seq::<Seq<char>>::empty());
            }
            while j < values.len()
                invariant
                    j <= values@.len(),
                    vs == values_view(values@),
                    out@ == piece_head + join_with(vs.take(j as int), ','),
                decreases values@.len() - j,
            {
                if j > 0 {
                    crate::encoding::push_char(&mut out, ',');
                }
                out.append(values[j].as_str());
                proof {
                    assert(vs.take(j as int + 1) =~= vs.take(j as int).push(vs[j as int]));
                    lemma_join_with_snoc(vs.take(j as int), vs[j as int], ',');
                    assert(out@ =~= piece_head + join_with(vs.take(j as int + 1), ','));
                }
                j = j + 1;
            }
            proof {
                assert(vs.take(vs.len() as int) =~= vs);
                assert(out@ =~= piece_head + join_with(vs, ','));
                let n = head_count + i;
                assert(pieces.take(n + 1) =~= pieces.take(n).push(pieces[n]));
                lemma_join_with_snoc(pieces.take(n), pieces[n], ' ');
                assert(piece =~= filters_view(self.filters@)[i as int].0 + seq![':'] + join_with(
                    vs,
                    ',',
                ));
                assert(out@ =~= join_with(pieces.take(n + 1), ' '));
            }
            i = i + 1;
        }
        proof {
            assert(pieces.take(pieces.len() as int) =~= pieces);
        }
        out
    }
}

impl Default for SearchQueryBuilder {
    fn default() -> (r: Self)
        ensures
            r.spec_query() == Seq::<char>::empty(),
            r.spec_filters() == Seq::<(Seq<char>, Seq<Seq<char>>)>::empty(),
            r.wf(),
    {
        let r = SearchQueryBuilder { query: String::new(), filters: Vec::new() };
        proof {
            assert(r.spec_filters() =~= Seq::<(Seq<char>, Seq<Seq<char>>)>::empty());
        }
        r
    }
}

} // verus!
