//! The mathematical picture of a key-value document: an ordered list of named
//! sections, each an ordered list of keys with an optional value.

use vstd::prelude::*;

verus! {

/// The keys of one section, in order, each with its value if it has one.
pub type Entries = Seq<(Seq<char>, Option<Seq<char>>)>;

/// A whole document: its sections in order.
pub type Contents = Seq<(Seq<char>, Entries)>;

/// Some entry of `s` is filed under `key`.
pub open spec fn holds<V>(s: Seq<(Seq<char>, V)>, key: Seq<char>) -> bool {
    exists|i: int| 0 <= i < s.len() && (#[trigger] s[i]).0 == key
}

/// A position at which `key` is filed in `s`, where there is one.
pub open spec fn slot<V>(s: Seq<(Seq<char>, V)>, key: Seq<char>) -> int {
    choose|i: int| 0 <= i < s.len() && (#[trigger] s[i]).0 == key
}

/// No key is filed twice in `s`.
pub open spec fn distinct_keys<V>(s: Seq<(Seq<char>, V)>) -> bool {
    forall|i: int, j: int|
        0 <= i < j < s.len() ==> (#[trigger] s[i]).0 != (#[trigger] s[j]).0
}

/// `s` with `value` filed under `key`: in place where the key is there
/// already, else at the end.
pub open spec fn upsert<V>(s: Seq<(Seq<char>, V)>, key: Seq<char>, value: V) -> Seq<
    (Seq<char>, V),
> {
    if holds(s, key) {
        s.update(slot(s, key), (key, value))
    } else {
        s.push((key, value))
    }
}

/// The keys of `s`, in order.
pub open spec fn keys<V>(s: Seq<(Seq<char>, V)>) -> Seq<Seq<char>> {
    Seq::new(s.len(), |i: int| s[i].0)
}

/// Sections are distinct, and so are the keys inside each section.
pub open spec fn well_keyed(c: Contents) -> bool {
    &&& distinct_keys(c)
    &&& forall|i: int| 0 <= i < c.len() ==> distinct_keys((#[trigger] c[i]).1)
}

/// What `c` holds under `key` of `section`; `None` where the section or the
/// key is missing, or the key stands without a value.
pub open spec fn value_of(c: Contents, section: Seq<char>, key: Seq<char>) -> Option<Seq<char>> {
    if holds(c, section) && holds(c[slot(c, section)].1, key) {
        let entries = c[slot(c, section)].1;
        entries[slot(entries, key)].1
    } else {
        None
    }
}

/// `c` after `value` is stored under `key` of `section`: an existing section
/// keeps its place and gets the key updated or appended, a new section goes
/// to the end with that one key.
pub open spec fn with_value(
    c: Contents,
    section: Seq<char>,
    key: Seq<char>,
    value: Option<Seq<char>>,
) -> Contents {
    if holds(c, section) {
        upsert(c, section, upsert(c[slot(c, section)].1, key, value))
    } else {
        c.push((section, seq![(key, value)]))
    }
}

/// The section whose keys are written without a header, before all others.
pub open spec fn default_section() -> Seq<char> {
    "default"@
}

/// The line end of most platforms.
pub open spec fn line_feed() -> Seq<char> {
    seq!['\n']
}

/// The line end of Windows.
pub open spec fn carriage_return_line_feed() -> Seq<char> {
    seq!['\r', '\n']
}

/// One key as a line of text: the key alone, or the key, `=` and its value.
pub open spec fn entry_text(key: Seq<char>, value: Option<Seq<char>>, eol: Seq<char>) -> Seq<char> {
    match value {
        Some(v) => key + seq!['='] + v + eol,
        None => key + eol,
    }
}

/// The keys of a section as text, one line each, in order.
pub open spec fn entries_text(entries: Entries, eol: Seq<char>) -> Seq<char>
    decreases entries.len(),
{
    if entries.len() == 0 {
        Seq::empty()
    } else {
        entries_text(entries.drop_last(), eol) + entry_text(
            entries.last().0,
            entries.last().1,
            eol,
        )
    }
}

/// The header of a section: its name in brackets on a line.
pub open spec fn header_text(name: Seq<char>, eol: Seq<char>) -> Seq<char> {
    seq!['['] + name + seq![']'] + eol
}

/// A section as text: its header, then its keys. The default section gives
/// nothing here: its keys go to the top of the text.
pub open spec fn section_text(name: Seq<char>, entries: Entries, eol: Seq<char>) -> Seq<char> {
    if name == default_section() {
        Seq::empty()
    } else {
        header_text(name, eol) + entries_text(entries, eol)
    }
}

/// The sections of a document as text, in order.
pub open spec fn sections_text(c: Contents, eol: Seq<char>) -> Seq<char>
    decreases c.len(),
{
    if c.len() == 0 {
        Seq::empty()
    } else {
        sections_text(c.drop_last(), eol) + section_text(c.last().0, c.last().1, eol)
    }
}

/// A document as text with lines that end in `eol`: the keys of the default
/// section, if there is one, then every other section in order.
pub open spec fn document_text(c: Contents, eol: Seq<char>) -> Seq<char> {
    if holds(c, default_section()) {
        entries_text(c[slot(c, default_section())].1, eol) + sections_text(c, eol)
    } else {
        sections_text(c, eol)
    }
}

/// `text` is document `c` as the text of its file, its lines ended as one of
/// the two kinds of platform ends them.
pub open spec fn written(c: Contents, text: Seq<char>) -> bool {
    text == document_text(c, line_feed()) || text == document_text(
        c,
        carriage_return_line_feed(),
    )
}

/// Where keys are distinct, a key is found at the one place that files it.
pub proof fn lemma_slot_unique<V>(s: Seq<(Seq<char>, V)>, key: Seq<char>, i: int)
    requires
        distinct_keys(s),
        0 <= i < s.len(),
        s[i].0 == key,
    ensures
        holds(s, key),
        slot(s, key) == i,
{
    let j = slot(s, key);
    assert(0 <= j < s.len() && s[j].0 == key);
    if j < i {
        assert(s[j].0 != s[i].0);
    }
    if i < j {
        assert(s[i].0 != s[j].0);
    }
}

/// Filing a value keeps keys distinct, makes the key findable with that
/// value, and changes the list of keys only by appending a new key.
pub proof fn lemma_upsert<V>(s: Seq<(Seq<char>, V)>, key: Seq<char>, value: V)
    requires
        distinct_keys(s),
    ensures
        distinct_keys(upsert(s, key, value)),
        holds(upsert(s, key, value), key),
        upsert(s, key, value)[slot(upsert(s, key, value), key)] == (key, value),
        holds(s, key) ==> keys(upsert(s, key, value)) == keys(s),
        !holds(s, key) ==> keys(upsert(s, key, value)) == keys(s).push(key),
{
    let t = upsert(s, key, value);
    if holds(s, key) {
        let i = slot(s, key);
        assert(0 <= i < s.len() && s[i].0 == key);
        assert forall|a: int, b: int| 0 <= a < b < t.len() implies (#[trigger] t[a]).0 != (
        #[trigger] t[b]).0 by {
            assert(t[a].0 == s[a].0);
            assert(t[b].0 == s[b].0);
        }
        lemma_slot_unique(t, key, i);
        assert(keys(t) =~= keys(s));
    } else {
        let i = s.len() as int;
        assert forall|a: int, b: int| 0 <= a < b < t.len() implies (#[trigger] t[a]).0 != (
        #[trigger] t[b]).0 by {
            assert(t[a] == s[a]);
            if b < s.len() {
                assert(t[b] == s[b]);
            } else {
                assert(t[b].0 == key);
                assert(s[a].0 != key);
            }
        }
        lemma_slot_unique(t, key, i);
        assert(keys(t) =~= keys(s).push(key));
    }
}

/// Filing a value under one key leaves every other key as it was.
pub proof fn lemma_upsert_other<V>(
    s: Seq<(Seq<char>, V)>,
    key: Seq<char>,
    value: V,
    other: Seq<char>,
)
    requires
        distinct_keys(s),
        other != key,
    ensures
        holds(upsert(s, key, value), other) == holds(s, other),
        holds(s, other) ==> upsert(s, key, value)[slot(upsert(s, key, value), other)] == s[slot(
            s,
            other,
        )],
{
    let t = upsert(s, key, value);
    lemma_upsert(s, key, value);
    if holds(s, other) {
        let i = slot(s, other);
        assert(0 <= i < s.len() && s[i].0 == other);
        if holds(s, key) {
            assert(slot(s, key) != i);
        }
        assert(t[i] == s[i]);
        lemma_slot_unique(t, other, i);
    }
    if holds(t, other) {
        let i = slot(t, other);
        assert(0 <= i < t.len() && t[i].0 == other);
        if holds(s, key) {
            assert(i != slot(s, key));
            assert(t[i] == s[i]);
        } else {
            assert(i != s.len());
            assert(t[i] == s[i]);
        }
        assert(holds(s, other));
    }
}

/// Storing a value keeps a document well keyed.
pub proof fn lemma_with_value_well_keyed(
    c: Contents,
    section: Seq<char>,
    key: Seq<char>,
    value: Option<Seq<char>>,
)
    requires
        well_keyed(c),
    ensures
        well_keyed(with_value(c, section, key, value)),
{
    let d = with_value(c, section, key, value);
    if holds(c, section) {
        let i = slot(c, section);
        assert(0 <= i < c.len() && c[i].0 == section);
        lemma_upsert(c[i].1, key, value);
        lemma_upsert(c, section, upsert(c[i].1, key, value));
        assert forall|a: int| 0 <= a < d.len() implies distinct_keys((#[trigger] d[a]).1) by {
            if a != i {
                assert(d[a] == c[a]);
            }
        }
    } else {
        let fresh: Entries = seq![(key, value)];
        lemma_upsert(c, section, fresh);
        assert(d =~= upsert(c, section, fresh));
        assert forall|a: int| 0 <= a < d.len() implies distinct_keys((#[trigger] d[a]).1) by {
            if a < c.len() {
                assert(d[a] == c[a]);
            } else {
                assert(d[a].1 == fresh);
            }
        }
    }
}

/// What was stored is what is found: after a value is stored under a key of
/// a section, the section is there and the key holds that value.
pub proof fn lemma_stored_is_found(
    c: Contents,
    section: Seq<char>,
    key: Seq<char>,
    value: Option<Seq<char>>,
)
    requires
        well_keyed(c),
    ensures
        holds(with_value(c, section, key, value), section),
        value_of(with_value(c, section, key, value), section, key) == value,
{
    let d = with_value(c, section, key, value);
    if holds(c, section) {
        let i = slot(c, section);
        assert(0 <= i < c.len() && c[i].0 == section);
        let entries = upsert(c[i].1, key, value);
        lemma_upsert(c[i].1, key, value);
        lemma_upsert(c, section, entries);
        assert(d[slot(d, section)] == (section, entries));
    } else {
        let fresh: Entries = seq![(key, value)];
        lemma_upsert(c, section, fresh);
        assert(d =~= upsert(c, section, fresh));
        assert(d[slot(d, section)] == (section, fresh));
        assert(fresh[0].0 == key);
        assert(distinct_keys(fresh));
        lemma_slot_unique(fresh, key, 0);
    }
}

/// Storing a value under one section leaves every other section as it was:
/// present or absent as before, with the same values.
pub proof fn lemma_stored_elsewhere(
    c: Contents,
    section: Seq<char>,
    key: Seq<char>,
    value: Option<Seq<char>>,
    other: Seq<char>,
    other_key: Seq<char>,
)
    requires
        well_keyed(c),
        other != section,
    ensures
        holds(with_value(c, section, key, value), other) == holds(c, other),
        value_of(with_value(c, section, key, value), other, other_key) == value_of(
            c,
            other,
            other_key,
        ),
{
    let d = with_value(c, section, key, value);
    if holds(c, section) {
        let i = slot(c, section);
        lemma_upsert_other(c, section, upsert(c[i].1, key, value), other);
    } else {
        let fresh: Entries = seq![(key, value)];
        assert(d =~= upsert(c, section, fresh));
        lemma_upsert_other(c, section, fresh, other);
    }
}

/// Storing a value for a new section appends its name to the list of
/// sections; for an existing section the list stays as it was.
pub proof fn lemma_stored_order(
    c: Contents,
    section: Seq<char>,
    key: Seq<char>,
    value: Option<Seq<char>>,
)
    requires
        well_keyed(c),
    ensures
        holds(c, section) ==> keys(with_value(c, section, key, value)) == keys(c),
        !holds(c, section) ==> keys(with_value(c, section, key, value)) == keys(c).push(section),
{
    let d = with_value(c, section, key, value);
    if holds(c, section) {
        let i = slot(c, section);
        lemma_upsert(c, section, upsert(c[i].1, key, value));
    } else {
        let fresh: Entries = seq![(key, value)];
        assert(d =~= upsert(c, section, fresh));
        lemma_upsert(c, section, fresh);
    }
}

/// Storing a value under one key leaves every other key of the same section
/// as it was.
pub proof fn lemma_stored_beside(
    c: Contents,
    section: Seq<char>,
    key: Seq<char>,
    value: Option<Seq<char>>,
    other_key: Seq<char>,
)
    requires
        well_keyed(c),
        other_key != key,
    ensures
        value_of(with_value(c, section, key, value), section, other_key) == value_of(
            c,
            section,
            other_key,
        ),
{
    let d = with_value(c, section, key, value);
    if holds(c, section) {
        let i = slot(c, section);
        assert(0 <= i < c.len() && c[i].0 == section);
        let entries = upsert(c[i].1, key, value);
        lemma_upsert(c, section, entries);
        assert(d[slot(d, section)] == (section, entries));
        lemma_upsert_other(c[i].1, key, value, other_key);
    } else {
        let fresh: Entries = seq![(key, value)];
        lemma_upsert(c, section, fresh);
        assert(d =~= upsert(c, section, fresh));
        assert(d[slot(d, section)] == (section, fresh));
        if holds(fresh, other_key) {
            let j = slot(fresh, other_key);
            assert(0 <= j < fresh.len() && fresh[j].0 == other_key);
        }
    }
}

/// A new section, other than the default one, goes to the end of the text:
/// what was written before stays, letter for letter, and the section's header
/// and its one key follow.
pub proof fn lemma_new_section_appends_text(
    c: Contents,
    section: Seq<char>,
    key: Seq<char>,
    value: Option<Seq<char>>,
    eol: Seq<char>,
)
    requires
        well_keyed(c),
        !holds(c, section),
        section != default_section(),
    ensures
        document_text(with_value(c, section, key, value), eol) == document_text(c, eol) + (
        header_text(section, eol) + entry_text(key, value, eol)),
{
    let fresh: Entries = seq![(key, value)];
    let d = with_value(c, section, key, value);
    lemma_with_value_well_keyed(c, section, key, value);
    assert(d.drop_last() =~= c);
    assert(fresh.drop_last() =~= Seq::empty());
    assert(entries_text(fresh.drop_last(), eol) =~= Seq::empty());
    assert(entries_text(fresh, eol) =~= entry_text(key, value, eol));
    assert(sections_text(d, eol) == sections_text(c, eol) + section_text(section, fresh, eol));
    lemma_stored_elsewhere(c, section, key, value, default_section(), key);
    if holds(c, default_section()) {
        let i = slot(c, default_section());
        assert(d[i] == c[i]);
        lemma_slot_unique(d, default_section(), i);
        assert(document_text(d, eol) =~= document_text(c, eol) + section_text(
            section,
            fresh,
            eol,
        ));
    } else {
        assert(document_text(d, eol) =~= document_text(c, eol) + section_text(
            section,
            fresh,
            eol,
        ));
    }
}

/// A document without sections is written as a text without any character.
pub proof fn lemma_empty_document_is_empty_text(c: Contents, text: Seq<char>)
    requires
        c.len() == 0,
        written(c, text),
    ensures
        text.len() == 0,
{
    if holds(c, default_section()) {
        let i = slot(c, default_section());
        assert(0 <= i < c.len());
    }
}

} // verus!
