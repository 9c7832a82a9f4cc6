//! Points of a time series, and InfluxDB line protocol.

use vstd::prelude::*;

use crate::text;

verus! {

/// The value of a field.
#[derive(Debug)]
pub enum FieldValue {
    /// A double, in decimal.
    Float(String),
    Int(i64),
    UInt(u64),
    Bool(bool),
    Str(String),
}

/// The contents of a [`FieldValue`].
#[verifier::ext_equal]
pub enum FieldView {
    Float(Seq<char>),
    Int(i64),
    UInt(u64),
    Bool(bool),
    Str(Seq<char>),
}

impl View for FieldValue {
    type V = FieldView;

    open spec fn view(&self) -> FieldView {
        match self {
            FieldValue::Float(s) => FieldView::Float(s@),
            FieldValue::Int(n) => FieldView::Int(*n),
            FieldValue::UInt(n) => FieldView::UInt(*n),
            FieldValue::Bool(b) => FieldView::Bool(*b),
            FieldValue::Str(s) => FieldView::Str(s@),
        }
    }
}

/// A value under a key.
#[derive(Debug)]
pub struct Keyed<T> {
    pub key: String,
    pub value: T,
}

/// The contents of a [`Keyed`].
#[verifier::ext_equal]
pub struct KeyedView<V> {
    pub key: Seq<char>,
    pub value: V,
}

impl<T: View> View for Keyed<T> {
    type V = KeyedView<T::V>;

    open spec fn view(&self) -> KeyedView<T::V> {
        KeyedView { key: self.key@, value: self.value@ }
    }
}

/// The contents of some [`Keyed`] values.
pub open spec fn keyed_views<T: View>(items: Seq<Keyed<T>>) -> Seq<KeyedView<T::V>> {
    items.map_values(|item: Keyed<T>| item@)
}

/// The order of keys: character by character, a key before its extensions.
pub open spec fn key_le(a: Seq<char>, b: Seq<char>) -> bool
    decreases a.len(),
{
    if a.len() == 0 {
        true
    } else if b.len() == 0 {
        false
    } else {
        a[0] < b[0] || (a[0] == b[0] && key_le(a.drop_first(), b.drop_first()))
    }
}

/// Ordered values with one more put in, after those whose keys are no greater.
pub open spec fn insert_keyed<V>(items: Seq<KeyedView<V>>, item: KeyedView<V>) -> Seq<KeyedView<V>>
    decreases items.len(),
{
    if items.len() == 0 {
        seq![item]
    } else if key_le(items.last().key, item.key) {
        items.push(item)
    } else {
        insert_keyed(items.drop_last(), item).push(items.last())
    }
}

/// Values in the order of their keys.
pub open spec fn sorted<V>(items: Seq<KeyedView<V>>) -> Seq<KeyedView<V>>
    decreases items.len(),
{
    if items.len() == 0 {
        items
    } else {
        insert_keyed(sorted(items.drop_last()), items.last())
    }
}

/// Whether values are in the order of their keys.
pub open spec fn in_key_order<V>(items: Seq<KeyedView<V>>) -> bool {
    forall|i: int, j: int|
        0 <= i <= j < items.len() ==> key_le((#[trigger] items[i]).key, (#[trigger] items[j]).key)
}

/// The characters that are escaped in a part of a line.
#[derive(Clone, Copy)]
pub enum EscapeClass {
    /// In the name of a measurement.
    Measurement,
    /// In the key of a tag or field, and in the value of a tag.
    Key,
    /// In the value of a text field.
    Text,
}

impl EscapeClass {
    pub open spec fn spec_escapes(self, c: char) -> bool {
        match self {
            EscapeClass::Measurement => c == '\\' || c == ',' || c == ' ',
            EscapeClass::Key => c == '\\' || c == ',' || c == '=' || c == ' ',
            EscapeClass::Text => c == '\\' || c == '"',
        }
    }

    fn escapes(self, c: char) -> (b: bool)
        ensures
            b == self.spec_escapes(c),
    {
        match self {
            EscapeClass::Measurement => c == '\\' || c == ',' || c == ' ',
            EscapeClass::Key => c == '\\' || c == ',' || c == '=' || c == ' ',
            EscapeClass::Text => c == '\\' || c == '"',
        }
    }
}

/// `s` with a backslash before each character of the class.
pub open spec fn escaped(s: Seq<char>, class: EscapeClass) -> Seq<char>
    decreases s.len(),
{
    if s.len() == 0 {
        s
    } else if class.spec_escapes(s[0]) {
        seq!['\\', s[0]] + escaped(s.drop_first(), class)
    } else {
        seq![s[0]] + escaped(s.drop_first(), class)
    }
}

/// `s` with each backslash taken away that stands before another character,
/// which is then taken as it is.
pub open spec fn unescaped(s: Seq<char>) -> Seq<char>
    decreases s.len(),
{
    if s.len() == 0 {
        s
    } else if s[0] == '\\' && s.len() > 1 {
        seq![s[1]] + unescaped(s.skip(2))
    } else {
        seq![s[0]] + unescaped(s.drop_first())
    }
}

/// What was escaped is read back as it was.
pub proof fn law_escape_roundtrip(s: Seq<char>, class: EscapeClass)
    ensures
        unescaped(escaped(s, class)) == s,
    decreases s.len(),
{
    if s.len() > 0 {
        let rest = escaped(s.drop_first(), class);
        law_escape_roundtrip(s.drop_first(), class);
        assert(s =~= seq![s[0]] + s.drop_first());
        if class.spec_escapes(s[0]) {
            assert(escaped(s, class).skip(2) =~= rest);
        } else {
            assert(escaped(s, class).drop_first() =~= rest);
        }
    }
}

/// Whether a character ends a part of a line, where it stands for itself.
pub open spec fn ends_part(class: EscapeClass, c: char) -> bool {
    match class {
        EscapeClass::Measurement => c == ',' || c == ' ',
        EscapeClass::Key => c == ',' || c == ' ' || c == '=',
        EscapeClass::Text => c == '"',
    }
}

/// Whatever a text holds, it does not end the part of a line that it stands in:
/// a comma or a space in a name or a tag, an equals sign in a tag or a key, and a
/// quotation mark in a text field have a backslash before them.
pub proof fn law_escaped_text_stays_in_its_part(s: Seq<char>, class: EscapeClass, i: int)
    requires
        0 <= i < escaped(s, class).len(),
        ends_part(class, escaped(s, class)[i]),
    ensures
        i > 0,
        escaped(s, class)[i - 1] == '\\',
    decreases s.len(),
{
    if s.len() > 0 {
        let rest = escaped(s.drop_first(), class);
        let n: int = if class.spec_escapes(s[0]) {
            2
        } else {
            1
        };
        if i >= n {
            assert(escaped(s, class)[i] == rest[i - n]);
            law_escaped_text_stays_in_its_part(s.drop_first(), class, i - n);
            assert(escaped(s, class)[i - 1] == rest[i - n - 1]);
        }
    }
}

/// A text without a character that ends a part of a line, and without a
/// backslash, is written as it is.
pub proof fn law_plain_text_is_not_escaped(s: Seq<char>, class: EscapeClass)
    requires
        forall|i: int|
            0 <= i < s.len() ==> !ends_part(class, #[trigger] s[i]) && s[i] != '\\',
    ensures
        escaped(s, class) == s,
    decreases s.len(),
{
    if s.len() > 0 {
        let rest = s.drop_first();
        assert(!ends_part(class, s[0]) && s[0] != '\\');
        assert forall|i: int| 0 <= i < rest.len() implies !ends_part(class, #[trigger] rest[i])
            && rest[i] != '\\' by {
            assert(rest[i] == s[i + 1]);
        }
        law_plain_text_is_not_escaped(rest, class);
        assert(escaped(s, class) =~= s);
    }
}

fn escape(s: &str, class: EscapeClass) -> (r: String)
    ensures
        r@ == escaped(s@, class),
{
    let cs = text::chars_of(s);
    let mut r = String::new();
    let mut i: usize = 0;
    proof {
        assert(cs@.skip(0) =~= s@);
        assert(r@ + escaped(cs@.skip(0), class) =~= escaped(s@, class));
    }
    while i < cs.len()
        invariant
            i <= cs@.len(),
            r@ + escaped(cs@.skip(i as int), class) == escaped(s@, class),
        decreases cs@.len() - i,
    {
        let c: char = cs[i];
        let ghost before = r@;
        let ghost here = cs@.skip(i as int);
        proof {
            assert(here.drop_first() =~= cs@.skip(i + 1));
        }
        if class.escapes(c) {
            r.push('\\');
        }
        r.push(c);
        i = i + 1;
        proof {
            assert(r@ + escaped(cs@.skip(i as int), class) =~= before + escaped(here, class));
        }
    }
    proof {
        assert(r@ + escaped(cs@.skip(i as int), class) =~= r@);
    }
    r
}

/// The text of a value.
pub open spec fn value_text(v: FieldView) -> Seq<char> {
    match v {
        FieldView::Float(s) => s,
        FieldView::Int(n) => text::signed_decimal(n as int) + "i"@,
        FieldView::UInt(n) => text::decimal(n as nat) + "u"@,
        FieldView::Bool(b) => if b {
            "true"@
        } else {
            "false"@
        },
        FieldView::Str(s) => "\""@ + escaped(s, EscapeClass::Text) + "\""@,
    }
}

fn format_field_value(v: &FieldValue) -> (s: String)
    ensures
        s@ == value_text(v@),
{
    match v {
        FieldValue::Float(x) => x.clone(),
        FieldValue::Int(n) => {
            let mut s = text::signed_decimal_text(*n);
            s.append("i");
            s
        },
        FieldValue::UInt(n) => {
            let mut s = text::decimal_text(*n);
            s.append("u");
            s
        },
        FieldValue::Bool(b) => {
            if *b {
                String::from_str("true")
            } else {
                String::from_str("false")
            }
        },
        FieldValue::Str(x) => {
            let mut s = String::from_str("\"");
            s.append(escape(x.as_str(), EscapeClass::Text).as_str());
            s.append("\"");
            s
        },
    }
}

/// The tags in a line, each after a comma.
pub open spec fn tags_text(tags: Seq<KeyedView<Seq<char>>>) -> Seq<char>
    decreases tags.len(),
{
    if tags.len() == 0 {
        Seq::<char>::empty()
    } else {
        let tag = tags.last();
        tags_text(tags.drop_last()) + ","@ + escaped(tag.key, EscapeClass::Key) + "="@ + escaped(
            tag.value,
            EscapeClass::Key,
        )
    }
}

/// The fields in a line, with a comma between each two.
pub open spec fn fields_text(fields: Seq<KeyedView<FieldView>>) -> Seq<char>
    decreases fields.len(),
{
    if fields.len() == 0 {
        Seq::<char>::empty()
    } else {
        let field = fields.last();
        let before = if fields.len() == 1 {
            Seq::<char>::empty()
        } else {
            fields_text(fields.drop_last()) + ","@
        };
        before + escaped(field.key, EscapeClass::Key) + "="@ + value_text(field.value)
    }
}

/// What a [`Point`] holds.
#[verifier::ext_equal]
pub struct PointView {
    pub measurement: Seq<char>,
    pub tags: Seq<KeyedView<Seq<char>>>,
    pub fields: Seq<KeyedView<FieldView>>,
    pub timestamp_ms: Option<i64>,
}

impl PointView {
    /// The line of a point in InfluxDB line protocol.
    pub open spec fn line(self) -> Seq<char> {
        let head = escaped(self.measurement, EscapeClass::Measurement) + tags_text(self.tags) + " "@
            + fields_text(self.fields);
        match self.timestamp_ms {
            Some(ts) => head + " "@ + text::signed_decimal(ts as int),
            None => head,
        }
    }

    /// A point with its tags and fields in the order of their keys.
    pub open spec fn ordered(self) -> PointView {
        PointView { tags: sorted(self.tags), fields: sorted(self.fields), ..self }
    }
}

/// A point of a time series.
#[derive(Debug)]
pub struct Point {
    measurement: String,
    tags: Vec<Keyed<String>>,
    fields: Vec<Keyed<FieldValue>>,
    timestamp_ms: Option<i64>,
}

impl View for Point {
    type V = PointView;

    closed spec fn view(&self) -> PointView {
        PointView {
            measurement: self.measurement@,
            tags: keyed_views(self.tags@),
            fields: keyed_views(self.fields@),
            timestamp_ms: self.timestamp_ms,
        }
    }
}

/// A point that is being put together.
#[derive(Debug)]
pub struct PointBuilder {
    measurement: String,
    tags: Vec<Keyed<String>>,
    fields: Vec<Keyed<FieldValue>>,
    timestamp_ms: Option<i64>,
}

impl View for PointBuilder {
    type V = PointView;

    closed spec fn view(&self) -> PointView {
        PointView {
            measurement: self.measurement@,
            tags: keyed_views(self.tags@),
            fields: keyed_views(self.fields@),
            timestamp_ms: self.timestamp_ms,
        }
    }
}

impl Point {
    /// Starts a point of a measurement.
    pub fn build(measurement: &str) -> (b: PointBuilder)
        ensures
            b@ == (PointView {
                measurement: measurement@,
                tags: Seq::empty(),
                fields: Seq::empty(),
                timestamp_ms: None,
            }),
    {
        let b = PointBuilder {
            measurement: String::from_str(measurement),
            tags: Vec::new(),
            fields: Vec::new(),
            timestamp_ms: None,
        };
        proof {
            assert(b@.tags =~= Seq::empty());
            assert(b@.fields =~= Seq::empty());
        }
        b
    }

    /// Appends the line of this point to `out`.
    pub fn write_line_protocol(&self, out: &mut String)
        ensures
            final(out)@ == old(out)@ + self@.line(),
    {
        let ghost start = out@;
        let ghost name = escaped(self@.measurement, EscapeClass::Measurement);
        out.append(escape(self.measurement.as_str(), EscapeClass::Measurement).as_str());
        let mut i: usize = 0;
        let ghost tags = self@.tags;
        proof {
            assert(start + name + tags_text(tags.take(0)) =~= start + name);
        }
        while i < self.tags.len()
            invariant
                i <= self.tags@.len(),
                tags == keyed_views(self.tags@),
                out@ == start + name + tags_text(tags.take(i as int)),
            decreases self.tags@.len() - i,
        {
            out.append(",");
            out.append(escape(self.tags[i].key.as_str(), EscapeClass::Key).as_str());
            out.append("=");
            out.append(escape(self.tags[i].value.as_str(), EscapeClass::Key).as_str());
            proof {
                assert(tags.take(i + 1).drop_last() =~= tags.take(i as int));
                assert(tags.take(i + 1).last() == self.tags@[i as int]@);
                assert(out@ =~= start + name + tags_text(tags.take(i + 1)));
            }
            i = i + 1;
        }
        out.append(" ");
        let ghost head = out@;
        let ghost fields = self@.fields;
        let mut j: usize = 0;
        proof {
            assert(tags.take(i as int) =~= tags);
            assert(head + fields_text(fields.take(0)) =~= head);
        }
        while j < self.fields.len()
            invariant
                j <= self.fields@.len(),
                fields == keyed_views(self.fields@),
                out@ == head + fields_text(fields.take(j as int)),
            decreases self.fields@.len() - j,
        {
            if j > 0 {
                out.append(",");
            }
            out.append(escape(self.fields[j].key.as_str(), EscapeClass::Key).as_str());
            out.append("=");
            out.append(format_field_value(&self.fields[j].value).as_str());
            proof {
                assert(fields.take(j + 1).drop_last() =~= fields.take(j as int));
                assert(fields.take(j + 1).last() == self.fields@[j as int]@);
                assert(out@ =~= head + fields_text(fields.take(j + 1)));
            }
            j = j + 1;
        }
        proof {
            assert(fields.take(j as int) =~= fields);
        }
        if let Some(ts) = self.timestamp_ms {
            out.append(" ");
            out.append(text::signed_decimal_text(ts).as_str());
        }
        proof {
            assert(out@ =~= start + self@.line());
        }
    }
}

/// Adds a value at the end.
fn push_keyed<T: View>(items: &mut Vec<Keyed<T>>, key: &str, value: T)
    ensures
        keyed_views(final(items)@) == keyed_views(old(items)@).push(
            (KeyedView { key: key@, value: value@ }),
        ),
{
    let item = Keyed { key: String::from_str(key), value };
    let ghost view = item@;
    items.push(item);
    proof {
        assert(keyed_views(items@) =~= keyed_views(old(items)@).push(view));
    }
}

impl PointBuilder {
    pub fn tag(self, key: &str, value: &str) -> (b: Self)
        ensures
            b@ == (PointView {
                tags: self@.tags.push((KeyedView { key: key@, value: value@ })),
                ..self@
            }),
    {
        let mut b = self;
        push_keyed(&mut b.tags, key, String::from_str(value));
        b
    }

    fn field(self, key: &str, value: FieldValue) -> (b: Self)
        ensures
            b@ == (PointView {
                fields: self@.fields.push((KeyedView { key: key@, value: value@ })),
                ..self@
            }),
    {
        let mut b = self;
        push_keyed(&mut b.fields, key, value);
        b
    }

    /// Adds a double, given in decimal.
    pub fn field_f64(self, key: &str, value: &str) -> (b: Self)
        ensures
            b@ == (PointView {
                fields: self@.fields.push(
                    (KeyedView { key: key@, value: FieldView::Float(value@) }),
                ),
                ..self@
            }),
    {
        self.field(key, FieldValue::Float(String::from_str(value)))
    }

    pub fn field_i64(self, key: &str, value: i64) -> (b: Self)
        ensures
            b@ == (PointView {
                fields: self@.fields.push((KeyedView { key: key@, value: FieldView::Int(value) })),
                ..self@
            }),
    {
        self.field(key, FieldValue::Int(value))
    }

    pub fn field_u64(self, key: &str, value: u64) -> (b: Self)
        ensures
            b@ == (PointView {
                fields: self@.fields.push((KeyedView { key: key@, value: FieldView::UInt(value) })),
                ..self@
            }),
    {
        self.field(key, FieldValue::UInt(value))
    }

    pub fn field_bool(self, key: &str, value: bool) -> (b: Self)
        ensures
            b@ == (PointView {
                fields: self@.fields.push((KeyedView { key: key@, value: FieldView::Bool(value) })),
                ..self@
            }),
    {
        self.field(key, FieldValue::Bool(value))
    }

    pub fn field_str(self, key: &str, value: &str) -> (b: Self)
        ensures
            b@ == (PointView {
                fields: self@.fields.push((KeyedView { key: key@, value: FieldView::Str(value@) })),
                ..self@
            }),
    {
        self.field(key, FieldValue::Str(String::from_str(value)))
    }

    /// Sets the timestamp in milliseconds. Without one, the time at which the
    /// database takes the point is used.
    pub fn timestamp_ms(self, timestamp_ms: i64) -> (b: Self)
        ensures
            b@ == (PointView { timestamp_ms: Some(timestamp_ms), ..self@ }),
    {
        PointBuilder {
            measurement: self.measurement,
            tags: self.tags,
            fields: self.fields,
            timestamp_ms: Some(timestamp_ms),
        }
    }

    /// Puts the tags and the fields in the order of their keys.
    pub fn build(self) -> (p: Point)
        ensures
            p@ == self@.ordered(),
    {
        Point {
            measurement: self.measurement,
            tags: sort_by_key(self.tags),
            fields: sort_by_key(self.fields),
            timestamp_ms: self.timestamp_ms,
        }
    }
}

/// Whether key `a` is no greater than key `b`.
fn key_at_most(a: &str, b: &str) -> (r: bool)
    ensures
        r == key_le(a@, b@),
{
    let x = text::chars_of(a);
    let y = text::chars_of(b);
    let mut i: usize = 0;
    proof {
        assert(x@.skip(0) =~= a@);
        assert(y@.skip(0) =~= b@);
    }
    while i < x.len()
        invariant
            i <= x@.len(),
            i <= y@.len(),
            key_le(a@, b@) == key_le(x@.skip(i as int), y@.skip(i as int)),
        decreases x@.len() - i,
    {
        if i >= y.len() {
            return false;
        }
        proof {
            assert(x@.skip(i as int).drop_first() =~= x@.skip(i + 1));
            assert(y@.skip(i as int).drop_first() =~= y@.skip(i + 1));
        }
        if x[i] < y[i] {
            return true;
        }
        if x[i] != y[i] {
            return false;
        }
        i = i + 1;
    }
    true
}

/// Puts values in the order of their keys.
fn sort_by_key<T: View>(items: Vec<Keyed<T>>) -> (r: Vec<Keyed<T>>)
    ensures
        keyed_views(r@) == sorted(keyed_views(items@)),
{
    let ghost all = keyed_views(items@);
    let mut r: Vec<Keyed<T>> = Vec::new();
    proof {
        assert(keyed_views(r@) =~= sorted(all.take(0)));
    }
    for item in it: items
        invariant
            it.seq() == items@,
            all == keyed_views(items@),
            keyed_views(r@) == sorted(all.take(it.index() as int)),
    {
        let ghost k = it.index() as int;
        let ghost before = keyed_views(r@);
        let ghost view = item@;
        let mut at: usize = r.len();
        while at > 0 && !key_at_most(r[at - 1].key.as_str(), item.key.as_str())
            invariant
                at <= r@.len(),
                view == item@,
                before == keyed_views(r@),
                forall|j: int| at <= j < r@.len() ==> !key_le(#[trigger] before[j].key, view.key),
            decreases at,
        {
            proof {
                assert(before[at - 1].key == r@[at - 1].key@);
            }
            at = at - 1;
        }
        proof {
            if at > 0 {
                assert(before[at - 1].key == r@[at - 1].key@);
            }
            lemma_insert_keyed(before, view, at as int);
        }
        r.insert(at, item);
        proof {
            assert(keyed_views(r@) =~= before.insert(at as int, view));
            assert(all.take(k + 1).drop_last() =~= all.take(k));
            assert(all.take(k + 1).last() == view);
        }
    }
    proof {
        assert(all.take(all.len() as int) =~= all);
    }
    r
}

/// Where a value is put in.
proof fn lemma_insert_keyed<V>(items: Seq<KeyedView<V>>, item: KeyedView<V>, at: int)
    requires
        0 <= at <= items.len(),
        at > 0 ==> key_le(items[at - 1].key, item.key),
        forall|j: int| at <= j < items.len() ==> !key_le(#[trigger] items[j].key, item.key),
    ensures
        insert_keyed(items, item) == items.insert(at, item),
    decreases items.len(),
{
    if items.len() == 0 {
        assert(items.insert(at, item) =~= seq![item]);
    } else if at == items.len() {
        assert(items.insert(at, item) =~= items.push(item));
    } else {
        assert(!key_le(items[items.len() - 1].key, item.key));
        lemma_insert_keyed(items.drop_last(), item, at);
        assert(items.insert(at, item) =~= items.drop_last().insert(at, item).push(items.last()));
    }
}

/// Keys can all be compared.
proof fn lemma_key_total(a: Seq<char>, b: Seq<char>)
    ensures
        key_le(a, b) || key_le(b, a),
        key_le(a, a),
    decreases a.len(),
{
    if a.len() > 0 {
        lemma_key_total(a.drop_first(), a.drop_first());
        if b.len() > 0 {
            lemma_key_total(a.drop_first(), b.drop_first());
        }
    }
}

proof fn lemma_key_transitive(a: Seq<char>, b: Seq<char>, c: Seq<char>)
    requires
        key_le(a, b),
        key_le(b, c),
    ensures
        key_le(a, c),
    decreases a.len(),
{
    if a.len() > 0 && b.len() > 0 && c.len() > 0 && a[0] == b[0] && b[0] == c[0] {
        lemma_key_transitive(a.drop_first(), b.drop_first(), c.drop_first());
    }
}

proof fn lemma_insert_in_order<V>(items: Seq<KeyedView<V>>, item: KeyedView<V>)
    requires
        in_key_order(items),
    ensures
        in_key_order(insert_keyed(items, item)),
        insert_keyed(items, item).to_multiset() == items.to_multiset().insert(item),
        forall|i: int|
            0 <= i < insert_keyed(items, item).len() ==> (#[trigger] insert_keyed(items, item)[i]
                == item || items.contains(insert_keyed(items, item)[i])),
    decreases items.len(),
{
    broadcast use vstd::seq_lib::group_to_multiset_ensures;

    let r = insert_keyed(items, item);
    if items.len() == 0 {
        lemma_key_total(item.key, item.key);
        assert(seq![item] =~= items.push(item));
        items.to_multiset_ensures();
    } else if key_le(items.last().key, item.key) {
        lemma_key_total(item.key, item.key);
        items.to_multiset_ensures();
        assert forall|i: int, j: int| 0 <= i <= j < r.len() implies key_le(
            (#[trigger] r[i]).key,
            (#[trigger] r[j]).key,
        ) by {
            if j < items.len() {
                assert(key_le(items[i].key, items[j].key));
            } else if i < items.len() {
                assert(key_le(items[i].key, items[items.len() - 1].key));
                lemma_key_transitive(items[i].key, items.last().key, item.key);
            }
        }
        assert forall|i: int| 0 <= i < r.len() implies (#[trigger] r[i] == item
            || items.contains(r[i])) by {
            if i < items.len() {
                assert(items[i] == r[i]);
            }
        }
    } else {
        let front = items.drop_last();
        let last = items.last();
        assert forall|i: int, j: int| 0 <= i <= j < front.len() implies key_le(
            (#[trigger] front[i]).key,
            (#[trigger] front[j]).key,
        ) by {
            assert(key_le(items[i].key, items[j].key));
        }
        lemma_insert_in_order(front, item);
        let f = insert_keyed(front, item);
        assert(r == f.push(last));
        lemma_key_total(last.key, item.key);
        lemma_key_total(last.key, last.key);
        assert forall|i: int, j: int| 0 <= i <= j < r.len() implies key_le(
            (#[trigger] r[i]).key,
            (#[trigger] r[j]).key,
        ) by {
            if j < f.len() {
                assert(key_le(f[i].key, f[j].key));
            } else if i < f.len() {
                if f[i] != item {
                    assert(front.contains(f[i]));
                    let k = choose|k: int| 0 <= k < front.len() && front[k] == f[i];
                    assert(items[k] == f[i]);
                    assert(key_le(items[k].key, items[items.len() - 1].key));
                }
            }
        }
        f.to_multiset_ensures();
        front.to_multiset_ensures();
        assert(items =~= front.push(last));
        assert(r.to_multiset() =~= items.to_multiset().insert(item));
        assert forall|i: int| 0 <= i < r.len() implies (#[trigger] r[i] == item
            || items.contains(r[i])) by {
            if i < f.len() {
                if f[i] != item {
                    let k = choose|k: int| 0 <= k < front.len() && front[k] == f[i];
                    assert(items[k] == f[i]);
                }
            } else {
                assert(items[items.len() - 1] == r[i]);
            }
        }
    }
}

/// Sorting puts values in the order of their keys, and neither adds nor loses
/// one.
pub proof fn law_sorted_is_an_ordering<V>(items: Seq<KeyedView<V>>)
    ensures
        in_key_order(sorted(items)),
        sorted(items).to_multiset() == items.to_multiset(),
    decreases items.len(),
{
    if items.len() > 0 {
        let front = items.drop_last();
        law_sorted_is_an_ordering(front);
        lemma_insert_in_order(sorted(front), items.last());
        front.to_multiset_ensures();
        assert(items =~= front.push(items.last()));
    }
}

/// A time stands at the end of a line, after a space; without one, the line ends
/// with the fields.
pub proof fn law_time_is_the_end_of_a_line(point: PointView, ts: i64)
    ensures
        (PointView { timestamp_ms: Some(ts), ..point }).line() == (PointView {
            timestamp_ms: None,
            ..point
        }).line() + " "@ + text::signed_decimal(ts as int),
{
}

/// A line grows by one part at a time: a tag more stands after a comma, as its
/// key, an equals sign and its value; a field more stands after the space that
/// follows the tags, or after a comma, likewise.
pub proof fn law_line_grows_by_one_part(
    name: Seq<char>,
    tags: Seq<KeyedView<Seq<char>>>,
    fields: Seq<KeyedView<FieldView>>,
    tag: KeyedView<Seq<char>>,
    field: KeyedView<FieldView>,
)
    ensures
        ({
            let line = |t: Seq<KeyedView<Seq<char>>>, f: Seq<KeyedView<FieldView>>|
                (PointView { measurement: name, tags: t, fields: f, timestamp_ms: None }).line();
            let none = Seq::<KeyedView<FieldView>>::empty();
            &&& line(Seq::empty(), none) == escaped(name, EscapeClass::Measurement) + " "@
            &&& line(tags.push(tag), none) == line(tags, none).drop_last() + ","@ + escaped(
                tag.key,
                EscapeClass::Key,
            ) + "="@ + escaped(tag.value, EscapeClass::Key) + " "@
            &&& line(tags, fields.push(field)) == line(tags, fields) + (if fields.len() == 0 {
                Seq::<char>::empty()
            } else {
                ","@
            }) + escaped(field.key, EscapeClass::Key) + "="@ + value_text(field.value)
        }),
{
    let line = |t: Seq<KeyedView<Seq<char>>>, f: Seq<KeyedView<FieldView>>|
        (PointView { measurement: name, tags: t, fields: f, timestamp_ms: None }).line();
    let none = Seq::<KeyedView<FieldView>>::empty();
    reveal_strlit(" ");
    let head = escaped(name, EscapeClass::Measurement);
    assert(line(Seq::empty(), none) =~= head + " "@);
    assert(tags.push(tag).drop_last() =~= tags);
    assert(tags.push(tag).last() == tag);
    assert(line(tags, none) =~= head + tags_text(tags) + " "@);
    assert(line(tags, none).drop_last() =~= head + tags_text(tags));
    assert(line(tags.push(tag), none) =~= line(tags, none).drop_last() + ","@ + escaped(
        tag.key,
        EscapeClass::Key,
    ) + "="@ + escaped(tag.value, EscapeClass::Key) + " "@);
    assert(fields.push(field).drop_last() =~= fields);
    assert(fields.push(field).last() == field);
    let between = if fields.len() == 0 {
        Seq::<char>::empty()
    } else {
        ","@
    };
    assert(line(tags, fields.push(field)) =~= line(tags, fields) + between + escaped(
        field.key,
        EscapeClass::Key,
    ) + "="@ + value_text(field.value));
}

/// The values of fields of different types are told apart by their last
/// character, and say what they hold: an integer in decimal and an `i`, an
/// unsigned one and a `u`, a text in quotation marks, a double in decimal alone.
pub proof fn law_values_tell_their_type(n: i64, m: u64, s: Seq<char>)
    ensures
        value_text(FieldView::Int(n)).last() == 'i',
        value_text(FieldView::Int(n)).drop_last() == text::signed_decimal(n as int),
        value_text(FieldView::UInt(m)).last() == 'u',
        value_text(FieldView::UInt(m)).drop_last() == text::decimal(m as nat),
        value_text(FieldView::Str(s)).last() == '"',
        value_text(FieldView::Str(s))[0] == '"',
        value_text(FieldView::Str(s)).len() >= 2,
        unescaped(value_text(FieldView::Str(s)).drop_first().drop_last()) == s,
        value_text(FieldView::Float(s)) == s,
        value_text(FieldView::Bool(true)) == "true"@,
        value_text(FieldView::Bool(false)) == "false"@,
{
    reveal_strlit("i");
    reveal_strlit("u");
    reveal_strlit("\"");
    law_escape_roundtrip(s, EscapeClass::Text);
    assert(value_text(FieldView::Int(n)).drop_last() =~= text::signed_decimal(n as int));
    assert(value_text(FieldView::UInt(m)).drop_last() =~= text::decimal(m as nat));
    assert(value_text(FieldView::Str(s)).drop_first().drop_last() =~= escaped(
        s,
        EscapeClass::Text,
    ));
}

/// Keys are in the order of a dictionary: what decides is the first character in
/// which they differ, and a key comes before its extensions.
pub proof fn law_keys_are_in_dictionary_order(
    common: Seq<char>,
    a: Seq<char>,
    b: Seq<char>,
    x: char,
    y: char,
)
    ensures
        x < y ==> key_le(common + seq![x] + a, common + seq![y] + b) && !key_le(
            common + seq![y] + b,
            common + seq![x] + a,
        ),
        key_le(common, common + b),
    decreases common.len(),
{
    let p = common + seq![x] + a;
    let q = common + seq![y] + b;
    if common.len() == 0 {
        assert(p[0] == x && q[0] == y);
    } else {
        let rest = common.drop_first();
        law_keys_are_in_dictionary_order(rest, a, b, x, y);
        assert(p.drop_first() =~= rest + seq![x] + a);
        assert(q.drop_first() =~= rest + seq![y] + b);
        assert((common + b).drop_first() =~= rest + b);
    }
}

/// A part that is added to a point comes behind those that it has, with its key,
/// its type and its value, and leaves all others alone.
pub proof fn law_parts_are_added(
    before: PointBuilder,
    key: &str,
    text_value: &str,
    int_value: i64,
    uint_value: u64,
    flag: bool,
    tagged: PointBuilder,
    with_double: PointBuilder,
    with_int: PointBuilder,
    with_uint: PointBuilder,
    with_flag: PointBuilder,
    with_text: PointBuilder,
)
    requires
        call_ensures(PointBuilder::tag, (before, key, text_value), tagged),
        call_ensures(PointBuilder::field_f64, (before, key, text_value), with_double),
        call_ensures(PointBuilder::field_i64, (before, key, int_value), with_int),
        call_ensures(PointBuilder::field_u64, (before, key, uint_value), with_uint),
        call_ensures(PointBuilder::field_bool, (before, key, flag), with_flag),
        call_ensures(PointBuilder::field_str, (before, key, text_value), with_text),
    ensures
        tagged@.tags.last() == (KeyedView { key: key@, value: text_value@ }),
        tagged@.tags.drop_last() == before@.tags,
        tagged@.fields == before@.fields,
        with_double@.fields.last() == (KeyedView {
            key: key@,
            value: FieldView::Float(text_value@),
        }),
        with_int@.fields.last() == (KeyedView { key: key@, value: FieldView::Int(int_value) }),
        with_uint@.fields.last() == (KeyedView { key: key@, value: FieldView::UInt(uint_value) }),
        with_flag@.fields.last() == (KeyedView { key: key@, value: FieldView::Bool(flag) }),
        with_text@.fields.last() == (KeyedView { key: key@, value: FieldView::Str(text_value@) }),
        with_double@.fields.drop_last() == before@.fields,
        with_int@.fields.drop_last() == before@.fields,
        with_uint@.fields.drop_last() == before@.fields,
        with_flag@.fields.drop_last() == before@.fields,
        with_text@.fields.drop_last() == before@.fields,
        with_text@.tags == before@.tags,
        with_text@.timestamp_ms == before@.timestamp_ms,
{
    assert(tagged@.tags.drop_last() =~= before@.tags);
    assert(with_double@.fields.drop_last() =~= before@.fields);
    assert(with_int@.fields.drop_last() =~= before@.fields);
    assert(with_uint@.fields.drop_last() =~= before@.fields);
    assert(with_flag@.fields.drop_last() =~= before@.fields);
    assert(with_text@.fields.drop_last() =~= before@.fields);
}

/// The line that is written of a built point has its tags and fields in the order
/// of their keys, and adds to what is there.
pub proof fn law_built_points_are_written_in_order(
    builder: PointBuilder,
    point: Point,
    out: &mut String,
)
    requires
        call_ensures(PointBuilder::build, (builder,), point),
        call_ensures(Point::write_line_protocol, (&point, out), ()),
    ensures
        in_key_order(point@.tags),
        in_key_order(point@.fields),
        point@.tags.to_multiset() == builder@.tags.to_multiset(),
        point@.fields.to_multiset() == builder@.fields.to_multiset(),
        point@.measurement == builder@.measurement,
        point@.timestamp_ms == builder@.timestamp_ms,
        final(out)@ == old(out)@ + point@.line(),
{
    law_sorted_is_an_ordering(builder@.tags);
    law_sorted_is_an_ordering(builder@.fields);
}

/// What is in order stays as it is, even where keys are the same.
pub proof fn law_ordered_parts_keep_their_order<V>(items: Seq<KeyedView<V>>)
    requires
        in_key_order(items),
    ensures
        sorted(items) == items,
    decreases items.len(),
{
    if items.len() > 0 {
        let front = items.drop_last();
        assert(in_key_order(front)) by {
            assert forall|i: int, j: int| 0 <= i <= j < front.len() implies key_le(
                (#[trigger] front[i]).key,
                (#[trigger] front[j]).key,
            ) by {
                assert(front[i] == items[i] && front[j] == items[j]);
            }
        }
        law_ordered_parts_keep_their_order(front);
        if front.len() > 0 {
            assert(front.last() == items[items.len() - 2]);
            assert(items.last() == items[items.len() - 1]);
            assert(key_le(items[items.len() - 2].key, items[items.len() - 1].key));
        }
        assert(front.push(items.last()) =~= items);
        assert(seq![items.last()] =~= Seq::<KeyedView<V>>::empty().push(items.last()));
    }
}

} // verus!
