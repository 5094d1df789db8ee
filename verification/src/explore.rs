//! The explore page: reading its query string into listing options and
//! writing those options as the filter and order of the repository query.

use vstd::prelude::*;
use vstd::string::StringExecFns;
use qstring::QString;
use crate::number::{decimal_text, parse_u32, parsed_u32, push_decimal};
use crate::text::{char_from, chars_of, find_char, lemma_char_from_bounds, text_is};

verus! {

#[verifier::external_type_specification]
#[verifier::external_body]
pub struct ExQString(QString);

/// The pairs of a query string, in order: each name with its value, a
/// name without value having the empty value.
pub uninterp spec fn query_pairs(q: QString) -> Seq<(Seq<char>, Seq<char>)>;

/// The pairs that `QString::from` reads from a query string (an optional
/// leading `?`, pairs split at `&` and `=`, percent-decoded).
pub uninterp spec fn parsed_query(s: Seq<char>) -> Seq<(Seq<char>, Seq<char>)>;

/// The value of the first pair named `name` at or after index `i`.
pub open spec fn value_from(pairs: Seq<(Seq<char>, Seq<char>)>, name: Seq<char>, i: int) -> Option<Seq<char>>
    decreases pairs.len() - i,
{
    if i < 0 || i >= pairs.len() {
        None
    } else if pairs[i].0 == name {
        Some(pairs[i].1)
    } else {
        value_from(pairs, name, i + 1)
    }
}

/// The value of the first pair named `name`, as `QString::get` finds it.
pub open spec fn query_value(pairs: Seq<(Seq<char>, Seq<char>)>, name: Seq<char>) -> Option<Seq<char>> {
    value_from(pairs, name, 0)
}

/// Whether a character is written in one byte of UTF-8.
pub open spec fn one_byte(c: char) -> bool {
    (c as u32) < 128
}

/// Whether `QString::from` reads the parts of a query string from index
/// `cur` on without panicking. It slices off the first byte of each part it
/// starts on (to compare it with `&`), which fails on a character of more
/// than one byte; a part starts at `cur`, after each `&` that ends a part,
/// and after the `=` of a part without name.
pub open spec fn parts_readable(s: Seq<char>, cur: int) -> bool
    decreases s.len() - cur,
{
    if cur < 0 || cur >= s.len() {
        true
    } else if !one_byte(s[cur]) {
        false
    } else if s[cur] == '&' {
        parts_readable(s, cur + 1)
    } else {
        proof {
            lemma_char_from_bounds(s, cur, '=');
            lemma_char_from_bounds(s, cur, '&');
        }
        match char_from(s, cur, '=') {
            None => match char_from(s, cur, '&') {
                None => true,
                Some(a) => parts_readable(s, a + 1),
            },
            Some(e) => match char_from(s, cur, '&') {
                Some(a) if a < e => parts_readable(s, a + 1),
                _ => if e == cur {
                    parts_readable(s, e + 1)
                } else {
                    proof {
                        lemma_char_from_bounds(s, e + 1, '&');
                    }
                    match char_from(s, e + 1, '&') {
                        None => true,
                        Some(p) => parts_readable(s, p + 1),
                    }
                },
            },
        }
    }
}

/// Whether `QString::from` reads a query string without panicking: its
/// first character (checked for a leading `?`) and the start of each part
/// are one byte long; see [`parts_readable`].
pub open spec fn readable_query(s: Seq<char>) -> bool {
    s.len() == 0 || (one_byte(s[0]) && parts_readable(
        s,
        if s[0] == '?' {
            1
        } else {
            0
        },
    ))
}

/// Checks that a query string can be read; see [`readable_query`].
pub fn query_is_readable(query: &str) -> (r: bool)
    ensures
        r == readable_query(query@),
{
    let cs = chars_of(query);
    if cs.len() == 0 {
        return true;
    }
    if (cs[0] as u32) >= 128 {
        return false;
    }
    let mut cur: usize = if cs[0] == '?' { 1 } else { 0 };
    loop
        invariant
            cur <= cs@.len(),
            cs@ == query@,
            readable_query(query@) == parts_readable(cs@, cur as int),
        decreases cs@.len() - cur,
    {
        if cur == cs.len() {
            return true;
        }
        if (cs[cur] as u32) >= 128 {
            return false;
        }
        if cs[cur] == '&' {
            cur = cur + 1;
        } else {
            let eq = find_char(cs.as_slice(), cur, '=');
            let amp = find_char(cs.as_slice(), cur, '&');
            match eq {
                None => match amp {
                    None => {
                        return true;
                    },
                    Some(a) => {
                        cur = a + 1;
                    },
                },
                Some(e) => {
                    let amp_first = match amp {
                        Some(a) => a < e,
                        None => false,
                    };
                    if amp_first {
                        cur = match amp {
                            Some(a) => a + 1,
                            None => cur,
                        };
                    } else if e == cur {
                        cur = e + 1;
                    } else {
                        match find_char(cs.as_slice(), e + 1, '&') {
                            None => {
                                return true;
                            },
                            Some(p) => {
                                cur = p + 1;
                            },
                        }
                    }
                },
            }
        }
    }
}

/// `QString::from(&str)`: parses a query string. What it holds is named by
/// [`parsed_query`]; how it splits the text into pairs and the
/// percent-decoding it does are not stated here. It panics on text it
/// cannot slice, which [`readable_query`] rules out.
#[verifier::external_body]
fn parse_query(s: &str) -> (q: QString)
    requires
        readable_query(s@),
    ensures
        query_pairs(q) == parsed_query(s@),
{
    QString::from(s)
}

/// `QString::get`: the value of the first pair with the given name, the
/// empty text for a name given without value.
#[verifier::external_body]
fn query_get<'a>(q: &'a QString, name: &str) -> (r: Option<&'a str>)
    ensures
        match query_value(query_pairs(*q), name@) {
            Some(v) => r matches Some(s) && s@ == v,
            None => r is None,
        },
{
    q.get(name)
}

/// Sort direction of a listing.
#[derive(Clone, Copy, PartialEq, Eq, Structural, Debug)]
pub enum Order {
    Ascending,
    Descending,
}

/// How a direction is written in a query: `asc` or `desc`.
pub open spec fn order_text(o: Order) -> Seq<char> {
    match o {
        Order::Ascending => "asc"@,
        Order::Descending => "desc"@,
    }
}

/// What `Order::parse` makes of a sort text: the part before the first
/// `_` as the sort method, and the part after it as the direction.
pub open spec fn order_split(s: Seq<char>) -> Option<(Seq<char>, Order)> {
    match char_from(s, 0, '_') {
        Some(k) => {
            let rest = s.skip(k + 1);
            if rest == "asc"@ {
                Some((s.take(k), Order::Ascending))
            } else if rest == "desc"@ {
                Some((s.take(k), Order::Descending))
            } else {
                None
            }
        },
        None => None,
    }
}

impl Order {
    /// Splits a sort text such as `stars_desc` into its method and its
    /// direction; nothing when there is no `_` or the direction is neither
    /// `asc` nor `desc`.
    pub fn parse(input: &str) -> (r: Option<(&str, Order)>)
        ensures
            match order_split(input@) {
                Some((m, o)) => r matches Some(p) && p.0@ == m && p.1 == o,
                None => r is None,
            },
    {
        let cs = chars_of(input);
        match find_char(cs.as_slice(), 0, '_') {
            None => None,
            Some(k) => {
                let rest = cs.as_slice().split_at(k + 1).1;
                assert(rest@ =~= input@.skip(k + 1));
                let order = if text_is(rest, "asc") {
                    Order::Ascending
                } else if text_is(rest, "desc") {
                    Order::Descending
                } else {
                    return None;
                };
                let method = input.substring_char(0, k);
                assert(method@ =~= input@.take(k as int));
                Some((method, order))
            },
        }
    }

    /// The direction as SQL writes it.
    pub fn as_str(&self) -> (r: &'static str)
        ensures
            r@ == order_text(*self),
    {
        match self {
            Order::Ascending => "asc",
            Order::Descending => "desc",
        }
    }
}

/// Parsing a sort text undoes writing it: when [`Order::parse`] splits a
/// text into a method and a direction, the method has no `_`, and the method,
/// `_` and the direction written out give the text back.
pub proof fn lemma_order_parse_round_trip(s: Seq<char>)
    ensures
        order_split(s) matches Some((m, o)) ==> m + seq!['_'] + order_text(o) == s && !m.contains('_'),
{
    lemma_char_from_bounds(s, 0, '_');
    if let Some((m, o)) = order_split(s) {
        let k = char_from(s, 0, '_').unwrap();
        assert(m + seq!['_'] + order_text(o) =~= s);
        assert forall|j: int| 0 <= j < m.len() implies m[j] != '_' by {
            assert(m[j] == s[j]);
        }
    }
}

/// Options of the explore listing.
pub struct ExploreOptions<'a> {
    /// Include archived repositories
    pub archived: bool,
    /// Include forks
    pub forked: bool,
    /// Include mirrors
    pub mirrored: bool,
    /// Include internal repositories (any signed-in viewer)
    pub internal: bool,
    /// Include disabled repositories (administrators)
    pub disabled: bool,
    pub sort: &'a str,
    pub order: Order,
    pub offset: u32,
}

/// Mathematical view of [`ExploreOptions`].
pub struct ExploreModel {
    pub archived: bool,
    pub forked: bool,
    pub mirrored: bool,
    pub internal: bool,
    pub disabled: bool,
    pub sort: Seq<char>,
    pub order: Order,
    pub offset: u32,
}

impl<'a> View for ExploreOptions<'a> {
    type V = ExploreModel;

    open spec fn view(&self) -> ExploreModel {
        ExploreModel {
            archived: self.archived,
            forked: self.forked,
            mirrored: self.mirrored,
            internal: self.internal,
            disabled: self.disabled,
            sort: self.sort@,
            order: self.order,
            offset: self.offset,
        }
    }
}

/// Whether a flag parameter asks to include: absent means yes, otherwise
/// only the value `1` does.
pub open spec fn flag_on(value: Option<Seq<char>>) -> bool {
    match value {
        Some(v) => v == "1"@,
        None => true,
    }
}

/// The offset that an `offset` parameter asks for: zero when it is absent
/// or not a `u32`.
pub open spec fn offset_of(value: Option<Seq<char>>) -> u32 {
    match value {
        Some(v) => match parsed_u32(v) {
            Some(n) => n,
            None => 0,
        },
        None => 0,
    }
}

fn flag(value: Option<&str>) -> (r: bool)
    ensures
        r == flag_on(match value {
            Some(v) => Some(v@),
            None => None,
        }),
{
    match value {
        Some(v) => {
            let cs = chars_of(v);
            text_is(cs.as_slice(), "1")
        },
        None => true,
    }
}

impl<'a> ExploreOptions<'a> {
    /// Reads the listing options from a query string. `viewer` is `None`
    /// for an anonymous visitor and otherwise whether the viewer is an
    /// administrator: signed-in viewers see internal repositories,
    /// administrators also disabled ones.
    pub fn parse(query_string: &QString, viewer: Option<bool>, sort: &'a str, order: Order) -> (r: ExploreOptions<'a>)
        ensures
            r.archived == flag_on(query_value(query_pairs(*query_string), "archived"@)),
            r.forked == flag_on(query_value(query_pairs(*query_string), "fork"@)),
            r.mirrored == flag_on(query_value(query_pairs(*query_string), "mirror"@)),
            r.internal == viewer is Some,
            r.disabled == (viewer == Some(true)),
            r.sort == sort,
            r.order == order,
            r.offset == offset_of(query_value(query_pairs(*query_string), "offset"@)),
    {
        let (internal, disabled) = match viewer {
            None => (false, false),
            Some(admin) => (true, admin),
        };
        let archived = flag(query_get(query_string, "archived"));
        let forked = flag(query_get(query_string, "fork"));
        let mirrored = flag(query_get(query_string, "mirror"));
        let offset = match query_get(query_string, "offset") {
            Some(v) => {
                let cs = chars_of(v);
                match parse_u32(cs.as_slice()) {
                    Some(n) => n,
                    None => 0,
                }
            },
            None => 0,
        };
        ExploreOptions { archived, forked, mirrored, internal, disabled, sort, order, offset }
    }
}

/// `text` when `omit` is false, nothing otherwise.
pub open spec fn unless(omit: bool, text: Seq<char>) -> Seq<char> {
    if omit {
        Seq::empty()
    } else {
        text
    }
}

/// The ordering part of the explore query: by stars, by lower-cased name,
/// or by id (creation), in the given direction.
pub open spec fn sort_clause(sort: Seq<char>, order: Order) -> Seq<char> {
    if sort == "stars"@ {
        "stars "@ + order_text(order) + ", id "@
    } else if sort == "name"@ {
        "lower(name) "@ + order_text(order) + ", id "@
    } else {
        "id "@ + order_text(order) + " "@
    }
}

/// The filter, order and page of the explore query, as `ExploreOptions`
/// writes them: repositories excluded by the options, never private ones,
/// twenty from the offset on.
pub open spec fn explore_clause(o: ExploreModel) -> Seq<char> {
    "where "@
        + unless(o.archived, "repositories.archived_at is null and "@)
        + unless(o.forked, "repositories.forked_from is null and "@)
        + unless(o.mirrored, "repositories.mirrored_from is null and "@)
        + unless(o.internal, "repositories.visibility != 'internal' and "@)
        + unless(o.disabled, "repositories.disabled is false and "@)
        + "repositories.visibility != 'private' group by repositories.id, u.username, o.name order by "@
        + sort_clause(o.sort, o.order)
        + "offset "@
        + decimal_text(o.offset as nat)
        + " limit 20"@
}

/// Law: the explore query orders by the direction parsed from the sort
/// parameter, whatever the method: the order part is the method's column
/// (`stars`, `lower(name)`, or `id` for any other method), then the
/// direction as written, and asking the other direction always gives a
/// different query.
pub proof fn lemma_sort_direction_respected(o: ExploreModel)
    ensures
        sort_clause(o.sort, o.order) == (if o.sort == "stars"@ {
            "stars "@
        } else if o.sort == "name"@ {
            "lower(name) "@
        } else {
            "id "@
        }) + order_text(o.order) + (if o.sort == "stars"@ || o.sort == "name"@ {
            ", id "@
        } else {
            " "@
        }),
        explore_clause(ExploreModel { order: Order::Ascending, ..o }) != explore_clause(
            ExploreModel { order: Order::Descending, ..o },
        ),
{
    reveal_strlit("asc");
    reveal_strlit("desc");
    reveal_strlit("stars ");
    reveal_strlit("lower(name) ");
    reveal_strlit("id ");
    let up = ExploreModel { order: Order::Ascending, ..o };
    let down = ExploreModel { order: Order::Descending, ..o };
    let head = "where "@ + unless(o.archived, "repositories.archived_at is null and "@) + unless(
        o.forked,
        "repositories.forked_from is null and "@,
    ) + unless(o.mirrored, "repositories.mirrored_from is null and "@) + unless(
        o.internal,
        "repositories.visibility != 'internal' and "@,
    ) + unless(o.disabled, "repositories.disabled is false and "@)
        + "repositories.visibility != 'private' group by repositories.id, u.username, o.name order by "@;
    let col = if o.sort == "stars"@ {
        "stars "@
    } else if o.sort == "name"@ {
        "lower(name) "@
    } else {
        "id "@
    };
    let k: int = (head.len() + col.len()) as int;
    assert(explore_clause(up)[k] == 'a');
    assert(explore_clause(down)[k] == 'd');
}

/// Law: the explore query leaves out archived, forked, mirrored, internal
/// or disabled repositories exactly when the options exclude them, never
/// lists private ones, and pages twenty from the asked offset on.
pub proof fn lemma_explore_filters(o: ExploreModel)
    ensures
        ({
            let q = explore_clause(o);
            let filters = unless(o.archived, "repositories.archived_at is null and "@) + unless(
                o.forked,
                "repositories.forked_from is null and "@,
            ) + unless(o.mirrored, "repositories.mirrored_from is null and "@) + unless(
                o.internal,
                "repositories.visibility != 'internal' and "@,
            ) + unless(o.disabled, "repositories.disabled is false and "@);
            &&& q.take(6) == "where "@
            &&& q.subrange(6, 6 + filters.len() as int) == filters
            &&& (o.archived <==> unless(o.archived, "repositories.archived_at is null and "@).len() == 0)
            &&& (o.forked <==> unless(o.forked, "repositories.forked_from is null and "@).len() == 0)
            &&& (o.mirrored <==> unless(o.mirrored, "repositories.mirrored_from is null and "@).len() == 0)
            &&& (o.internal <==> unless(o.internal, "repositories.visibility != 'internal' and "@).len() == 0)
            &&& (o.disabled <==> unless(o.disabled, "repositories.disabled is false and "@).len() == 0)
            &&& q.skip(q.len() - 9) == " limit 20"@
        }),
{
    reveal_strlit("where ");
    reveal_strlit(" limit 20");
    reveal_strlit("repositories.archived_at is null and ");
    reveal_strlit("repositories.forked_from is null and ");
    reveal_strlit("repositories.mirrored_from is null and ");
    reveal_strlit("repositories.visibility != 'internal' and ");
    reveal_strlit("repositories.disabled is false and ");
    let q = explore_clause(o);
    let filters = unless(o.archived, "repositories.archived_at is null and "@) + unless(
        o.forked,
        "repositories.forked_from is null and "@,
    ) + unless(o.mirrored, "repositories.mirrored_from is null and "@) + unless(
        o.internal,
        "repositories.visibility != 'internal' and "@,
    ) + unless(o.disabled, "repositories.disabled is false and "@);
    let rest = "repositories.visibility != 'private' group by repositories.id, u.username, o.name order by "@
        + sort_clause(o.sort, o.order) + "offset "@ + decimal_text(o.offset as nat) + " limit 20"@;
    assert(q =~= "where "@ + filters + rest);
    assert(q.take(6) =~= "where "@);
    assert(q.subrange(6, 6 + filters.len() as int) =~= filters);
    assert(q.skip(q.len() - 9) =~= " limit 20"@);
}

/// Law: a flag parameter includes unless it is given with a value other
/// than `1`; the offset is the parameter when it is a `u32`, else zero.
pub proof fn lemma_flags_and_offset(value: Option<Seq<char>>)
    ensures
        value is None ==> flag_on(value),
        value matches Some(v) ==> (flag_on(value) <==> v == "1"@),
        value is None ==> offset_of(value) == 0,
        value matches Some(v) ==> offset_of(value) == match parsed_u32(v) {
            Some(n) => n,
            None => 0u32,
        },
{
}

fn append_unless(s: &mut String, omit: bool, text: &str)
    ensures
        final(s)@ == old(s)@ + unless(omit, text@),
{
    if !omit {
        s.append(text);
    } else {
        assert(old(s)@ + Seq::<char>::empty() =~= old(s)@);
    }
}

impl<'a> ExploreOptions<'a> {
    /// Writes the options as the `where`, `order by`, `offset` and `limit`
    /// parts of the repository query.
    pub fn to_sql(&self) -> (r: String)
        ensures
            r@ == explore_clause(self@),
    {
        let mut s = String::from_str("where ");
        append_unless(&mut s, self.archived, "repositories.archived_at is null and ");
        append_unless(&mut s, self.forked, "repositories.forked_from is null and ");
        append_unless(&mut s, self.mirrored, "repositories.mirrored_from is null and ");
        append_unless(&mut s, self.internal, "repositories.visibility != 'internal' and ");
        append_unless(&mut s, self.disabled, "repositories.disabled is false and ");
        s.append("repositories.visibility != 'private' group by repositories.id, u.username, o.name order by ");
        let ghost head = s@;
        let cs = chars_of(self.sort);
        if text_is(cs.as_slice(), "stars") {
            s.append("stars ");
            s.append(self.order.as_str());
            s.append(", id ");
        } else if text_is(cs.as_slice(), "name") {
            s.append("lower(name) ");
            s.append(self.order.as_str());
            s.append(", id ");
        } else {
            s.append("id ");
            s.append(self.order.as_str());
            s.append(" ");
        }
        assert(s@ =~= head + sort_clause(self.sort@, self.order));
        s.append("offset ");
        push_decimal(&mut s, self.offset as u64);
        s.append(" limit 20");
        s
    }
}

/// Reads the explore page's query string into the filter, order and page
/// of its repository query. `sort` defaults to `stars_desc`; nothing is
/// returned when it does not name a direction (a bad request). The query
/// must be one that `QString` can read (see [`query_is_readable`]).
pub fn explore_query(query: &str, viewer: Option<bool>) -> (r: Option<String>)
    requires
        readable_query(query@),
    ensures
        ({
            let pairs = parsed_query(query@);
            let sorting = match query_value(pairs, "sort"@) {
                Some(v) => v,
                None => "stars_desc"@,
            };
            match order_split(sorting) {
                None => r is None,
                Some((method, order)) => r matches Some(t) && t@ == explore_clause(ExploreModel {
                    archived: flag_on(query_value(pairs, "archived"@)),
                    forked: flag_on(query_value(pairs, "fork"@)),
                    mirrored: flag_on(query_value(pairs, "mirror"@)),
                    internal: viewer is Some,
                    disabled: viewer == Some(true),
                    sort: method,
                    order: order,
                    offset: offset_of(query_value(pairs, "offset"@)),
                }),
            }
        }),
{
    let q = parse_query(query);
    let sorting = match query_get(&q, "sort") {
        Some(v) => v,
        None => "stars_desc",
    };
    match Order::parse(sorting) {
        None => None,
        Some((method, order)) => {
            let options = ExploreOptions::parse(&q, viewer, method, order);
            Some(options.to_sql())
        },
    }
}

} // verus!
