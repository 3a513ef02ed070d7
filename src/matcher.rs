use vstd::prelude::*;

verus! {

/// The text of each string in a sequence.
pub open spec fn texts(v: Seq<String>) -> Seq<Seq<char>> {
    v.map_values(|s: String| s@)
}

/// The text of an optional string.
pub open spec fn opt_text(o: Option<String>) -> Option<Seq<char>> {
    match o {
        Some(s) => Some(s@),
        None => None,
    }
}

/// Each item of `a` occurs somewhere in `b`.
pub open spec fn covers(b: Seq<Seq<char>>, a: Seq<Seq<char>>) -> bool {
    forall|i: int| 0 <= i < a.len() ==> #[trigger] b.contains(a[i])
}

/// What a matcher asks of a span, as plain values.
pub ghost struct MatcherModel {
    pub name: Option<Seq<char>>,
    pub target: Option<Seq<char>>,
    pub parent_name: Option<Seq<char>>,
    pub fields: Seq<Seq<char>>,
}

/// What a matcher can see of a span, as plain values.
pub ghost struct SpanModel {
    pub name: Seq<char>,
    pub target: Seq<char>,
    pub fields: Seq<Seq<char>>,
    pub ancestors: Seq<Seq<char>>,
}

/// Two matchers ask the same of every span: equal name, target and parent
/// name, and the same set of required fields, whatever their order.
pub open spec fn same_criteria(a: MatcherModel, b: MatcherModel) -> bool {
    &&& a.name == b.name
    &&& a.target == b.target
    &&& a.parent_name == b.parent_name
    &&& covers(a.fields, b.fields)
    &&& covers(b.fields, a.fields)
}

/// A span satisfies a matcher: each criterion that is set holds of it.
pub open spec fn accepts(m: MatcherModel, s: SpanModel) -> bool {
    &&& (m.name matches Some(n) ==> n == s.name)
    &&& (m.target matches Some(t) ==> t == s.target)
    &&& (m.parent_name matches Some(p) ==> s.ancestors.contains(p))
    &&& covers(s.fields, m.fields)
}

/// Covering is transitive.
pub proof fn lemma_covers_trans(a: Seq<Seq<char>>, b: Seq<Seq<char>>, c: Seq<Seq<char>>)
    requires
        covers(b, a),
        covers(c, b),
    ensures
        covers(c, a),
{
    assert forall|i: int| 0 <= i < a.len() implies #[trigger] c.contains(a[i]) by {
        assert(b.contains(a[i]));
        let k = choose|k: int| 0 <= k < b.len() && b[k] == a[i];
        assert(c.contains(b[k]));
    }
}

/// Asking the same of every span is an equivalence.
pub proof fn lemma_same_criteria_equiv(a: MatcherModel, b: MatcherModel, c: MatcherModel)
    ensures
        same_criteria(a, a),
        same_criteria(a, b) ==> same_criteria(b, a),
        same_criteria(a, b) && same_criteria(b, c) ==> same_criteria(a, c),
{
    assert forall|i: int| 0 <= i < a.fields.len() implies #[trigger] a.fields.contains(
        a.fields[i],
    ) by {}
    if same_criteria(a, b) && same_criteria(b, c) {
        lemma_covers_trans(a.fields, b.fields, c.fields);
        lemma_covers_trans(c.fields, b.fields, a.fields);
    }
}

/// A read-only view of one span: its name, its target, the names of its
/// fields, and the names of its ancestors, nearest first and ending at the
/// root. The span's own name is not among its ancestors.
pub struct SpanRecord {
    pub name: String,
    pub target: String,
    pub fields: Vec<String>,
    pub ancestors: Vec<String>,
}

impl View for SpanRecord {
    type V = SpanModel;

    open spec fn view(&self) -> SpanModel {
        SpanModel {
            name: self.name@,
            target: self.target@,
            fields: texts(self.fields@),
            ancestors: texts(self.ancestors@),
        }
    }
}

/// A predicate over spans. Each criterion is optional and all of them must
/// hold; a matcher with none set accepts every span.
pub struct SpanMatcher {
    name: Option<String>,
    target: Option<String>,
    parent_name: Option<String>,
    fields: Vec<String>,
}

impl View for SpanMatcher {
    type V = MatcherModel;

    closed spec fn view(&self) -> MatcherModel {
        MatcherModel {
            name: opt_text(self.name),
            target: opt_text(self.target),
            parent_name: opt_text(self.parent_name),
            fields: texts(self.fields@),
        }
    }
}

/// The empty matcher, which accepts every span.
pub open spec fn empty_matcher() -> MatcherModel {
    MatcherModel { name: None, target: None, parent_name: None, fields: Seq::empty() }
}

/// Whether `v` holds a string with the text of `s`.
fn contains_text(v: &Vec<String>, s: &String) -> (r: bool)
    ensures
        r == texts(v@).contains(s@),
{
    let mut i: usize = 0;
    while i < v.len()
        invariant
            i <= v@.len(),
            forall|j: int| 0 <= j < i ==> v@[j]@ != s@,
        decreases v@.len() - i,
    {
        if v[i] == *s {
            assert(texts(v@)[i as int] == s@);
            return true;
        }
        i += 1;
    }
    assert forall|k: int| 0 <= k < texts(v@).len() implies texts(v@)[k] != s@ by {
        assert(texts(v@)[k] == v@[k]@);
    }
    false
}

/// Whether every string of `a` has its text in `b`.
fn covers_all(b: &Vec<String>, a: &Vec<String>) -> (r: bool)
    ensures
        r == covers(texts(b@), texts(a@)),
{
    let mut i: usize = 0;
    while i < a.len()
        invariant
            i <= a@.len(),
            forall|j: int| 0 <= j < i ==> #[trigger] texts(b@).contains(texts(a@)[j]),
        decreases a@.len() - i,
    {
        if !contains_text(b, &a[i]) {
            assert(texts(a@)[i as int] == a@[i as int]@);
            return false;
        }
        i += 1;
    }
    true
}

fn same_opt_text(a: &Option<String>, b: &Option<String>) -> (r: bool)
    ensures
        r == (opt_text(*a) == opt_text(*b)),
{
    match (a, b) {
        (Some(x), Some(y)) => *x == *y,
        (None, None) => true,
        _ => false,
    }
}

fn copy_opt(o: &Option<String>) -> (r: Option<String>)
    ensures
        opt_text(r) == opt_text(*o),
{
    match o {
        Some(s) => Some(s.clone()),
        None => None,
    }
}

impl Default for SpanMatcher {
    fn default() -> (r: SpanMatcher)
        ensures
            r@ == empty_matcher(),
    {
        let r = SpanMatcher { name: None, target: None, parent_name: None, fields: Vec::new() };
        assert(r@.fields =~= Seq::<Seq<char>>::empty());
        r
    }
}

impl SpanMatcher {
    /// Requires the span to have exactly this name; replaces any earlier name.
    pub fn set_name(&mut self, name: String)
        ensures
            final(self)@ == (MatcherModel { name: Some(name@), ..old(self)@ }),
    {
        self.name = Some(name);
    }

    /// Requires some ancestor of the span to have this name; replaces any
    /// earlier parent name.
    pub fn set_parent_name(&mut self, name: String)
        ensures
            final(self)@ == (MatcherModel { parent_name: Some(name@), ..old(self)@ }),
    {
        self.parent_name = Some(name);
    }

    /// Requires the span to have exactly this target; replaces any earlier
    /// target.
    pub fn set_target(&mut self, target: String)
        ensures
            final(self)@ == (MatcherModel { target: Some(target@), ..old(self)@ }),
    {
        self.target = Some(target);
    }

    /// Adds a field that the span must carry.
    pub fn add_field_exists(&mut self, field: String)
        ensures
            final(self)@ == (MatcherModel { fields: old(self)@.fields.push(field@), ..old(self)@ }),
    {
        let ghost before = self.fields@;
        self.fields.push(field);
        assert(texts(self.fields@) =~= texts(before).push(self.fields@.last()@));
    }

    /// A matcher that asks the same of every span.
    pub fn duplicate(&self) -> (r: SpanMatcher)
        ensures
            r@ == self@,
    {
        let mut fields: Vec<String> = Vec::new();
        let mut i: usize = 0;
        while i < self.fields.len()
            invariant
                i <= self.fields@.len(),
                texts(fields@) =~= texts(self.fields@).take(i as int),
            decreases self.fields@.len() - i,
        {
            let ghost prev = fields@;
            fields.push(self.fields[i].clone());
            assert(texts(fields@) =~= texts(prev).push(self.fields@[i as int]@));
            assert(texts(self.fields@).take(i + 1) =~= texts(self.fields@).take(i as int).push(
                self.fields@[i as int]@,
            ));
            i += 1;
        }
        assert(texts(self.fields@).take(self.fields@.len() as int) =~= texts(self.fields@));
        SpanMatcher {
            name: copy_opt(&self.name),
            target: copy_opt(&self.target),
            parent_name: copy_opt(&self.parent_name),
            fields,
        }
    }

    /// Whether the two matchers ask the same of every span.
    pub fn same_criteria_as(&self, other: &SpanMatcher) -> (r: bool)
        ensures
            r == same_criteria(self@, other@),
    {
        same_opt_text(&self.name, &other.name) && same_opt_text(&self.target, &other.target)
            && same_opt_text(&self.parent_name, &other.parent_name) && covers_all(
            &self.fields,
            &other.fields,
        ) && covers_all(&other.fields, &self.fields)
    }

    /// Whether the span satisfies every criterion of this matcher. The
    /// parent name is looked for along the whole ancestry of the span.
    pub fn matches(&self, span: &SpanRecord) -> (r: bool)
        ensures
            r == accepts(self@, span@),
    {
        if let Some(name) = &self.name {
            if *name != span.name {
                return false;
            }
        }
        if let Some(target) = &self.target {
            if *target != span.target {
                return false;
            }
        }
        if let Some(parent) = &self.parent_name {
            if !contains_text(&span.ancestors, parent) {
                return false;
            }
        }
        covers_all(&span.fields, &self.fields)
    }
}

} // verus!
