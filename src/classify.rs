//! Classifying a handler's parameters and return type by the names in their types.
use vstd::prelude::*;
use crate::bindings::{occurs_in, text_contains};
use schemars::schema::SchemaObject;

verus! {

/// The declared shape of a type: its name, its generic arguments, and what the schema
/// subsystem gives for it.
pub struct TypeDescriptor {
    pub name: String,
    pub args: Vec<TypeDescriptor>,
    /// The schema derived for this type, where one was.
    pub schema: Option<SchemaObject>,
    /// The declared field names, for a struct-like type.
    pub fields: Vec<String>,
}

/// The names that give a parameter its role.
pub struct ClassificationTable {
    /// Outer name of the query extractor.
    pub query: String,
    /// Outer name of the header extractor.
    pub header: String,
    /// Name of the JSON body wrapper, outer or nested.
    pub body: String,
    /// Text in the name of a fallible wrapper, outer or nested.
    pub fallible: String,
    /// Text in the name of an authentication extractor, outer or nested.
    pub auth: String,
}

/// The role of one parameter, with the name of the type that the role is about.
pub enum ParameterSource {
    Query(String),
    Header(String),
    Body(String),
    Security(String),
    Ignored,
}

pub enum SourceView {
    Query(Seq<char>),
    Header(Seq<char>),
    Body(Seq<char>),
    Security(Seq<char>),
    Ignored,
}

impl View for ParameterSource {
    type V = SourceView;

    open spec fn view(&self) -> SourceView {
        match self {
            ParameterSource::Query(n) => SourceView::Query(n@),
            ParameterSource::Header(n) => SourceView::Header(n@),
            ParameterSource::Body(n) => SourceView::Body(n@),
            ParameterSource::Security(n) => SourceView::Security(n@),
            ParameterSource::Ignored => SourceView::Ignored,
        }
    }
}

/// The names of a type along its first generic arguments, outermost first.
pub open spec fn chain(t: TypeDescriptor) -> Seq<Seq<char>>
    decreases t,
{
    if t.args.len() > 0 {
        seq![t.name@] + chain(t.args@[0])
    } else {
        seq![t.name@]
    }
}

/// How many names `chain` gives.
pub open spec fn depth(t: TypeDescriptor) -> nat
    decreases t,
{
    if t.args.len() > 0 {
        1 + depth(t.args@[0])
    } else {
        1
    }
}

/// Index of the first name that satisfies `p`, or -1.
pub open spec fn first_index(c: Seq<Seq<char>>, p: spec_fn(Seq<char>) -> bool) -> int
    decreases c.len(),
{
    if c.len() == 0 {
        -1
    } else if first_index(c.drop_last(), p) >= 0 {
        first_index(c.drop_last(), p)
    } else if p(c.last()) {
        c.len() - 1
    } else {
        -1
    }
}

pub proof fn lemma_first_index(c: Seq<Seq<char>>, p: spec_fn(Seq<char>) -> bool)
    ensures
        -1 <= first_index(c, p) < c.len(),
        first_index(c, p) >= 0 ==> p(c[first_index(c, p)]),
        forall|i: int| 0 <= i < c.len() && (first_index(c, p) < 0 || i < first_index(c, p)) ==> !p(#[trigger] c[i]),
    decreases c.len(),
{
    if c.len() > 0 {
        let t = c.drop_last();
        lemma_first_index(t, p);
        assert forall|i: int| 0 <= i < t.len() implies t[i] == c[i] by {}
    }
}

pub proof fn lemma_first_index_at(c: Seq<Seq<char>>, p: spec_fn(Seq<char>) -> bool, j: int)
    requires
        0 <= j <= c.len(),
        j < c.len() ==> p(c[j]),
        forall|i: int| 0 <= i < j ==> !p(#[trigger] c[i]),
    ensures
        first_index(c, p) == (if j < c.len() { j } else { -1 }),
{
    lemma_first_index(c, p);
    if first_index(c, p) >= 0 && first_index(c, p) != j {
        assert(p(c[first_index(c, p)]));
    }
    if j < c.len() && first_index(c, p) < 0 {
        assert(!p(c[j]));
    }
}

/// A name that marks a request or response body.
pub open spec fn is_body_name(table: ClassificationTable, n: Seq<char>) -> bool {
    n == table.body@ || occurs_in(table.fallible@, n)
}

/// A name that marks an authentication extractor.
pub open spec fn is_auth_name(table: ClassificationTable, n: Seq<char>) -> bool {
    occurs_in(table.auth@, n)
}

/// A name that marks a fallible wrapper.
pub open spec fn is_fallible_name(table: ClassificationTable, n: Seq<char>) -> bool {
    occurs_in(table.fallible@, n)
}

pub open spec fn body_pred(table: ClassificationTable) -> spec_fn(Seq<char>) -> bool {
    |n: Seq<char>| is_body_name(table, n)
}

pub open spec fn auth_pred(table: ClassificationTable) -> spec_fn(Seq<char>) -> bool {
    |n: Seq<char>| is_auth_name(table, n)
}

/// The role of a parameter whose type has the names `c`. The query and header extractors are
/// known by their outer name, then a body marker anywhere, then an authentication marker
/// anywhere. The type a role is about is the innermost one; for a body whose names from the
/// marker on hold a fallible wrapper it is the third of those names.
pub open spec fn source_of(table: ClassificationTable, c: Seq<Seq<char>>) -> SourceView {
    let b = first_index(c, body_pred(table));
    let a = first_index(c, auth_pred(table));
    if c.len() == 0 {
        SourceView::Ignored
    } else if c[0] == table.query@ {
        SourceView::Query(c.last())
    } else if c[0] == table.header@ {
        SourceView::Header(c.last())
    } else if b >= 0 {
        let s = c.skip(b);
        if exists|i: int| 0 <= i < s.len() && is_fallible_name(table, #[trigger] s[i]) {
            if s.len() > 2 {
                SourceView::Body(s[2])
            } else {
                SourceView::Ignored
            }
        } else {
            SourceView::Body(c.last())
        }
    } else if a >= 0 {
        SourceView::Security(c.last())
    } else {
        SourceView::Ignored
    }
}

impl ClassificationTable {
    /// The usual names: `Query`, `TypedHeader`, `Json`, `Result` and `Auth`.
    pub fn standard() -> (r: ClassificationTable)
        ensures
            r.query@ == "Query"@,
            r.header@ == "TypedHeader"@,
            r.body@ == "Json"@,
            r.fallible@ == "Result"@,
            r.auth@ == "Auth"@,
    {
        ClassificationTable {
            query: "Query".to_string(),
            header: "TypedHeader".to_string(),
            body: "Json".to_string(),
            fallible: "Result".to_string(),
            auth: "Auth".to_string(),
        }
    }

    pub fn is_body(&self, n: &String) -> (r: bool)
        ensures
            r == is_body_name(*self, n@),
    {
        *n == self.body || text_contains(n.as_str(), self.fallible.as_str())
    }

    pub fn is_auth(&self, n: &String) -> (r: bool)
        ensures
            r == is_auth_name(*self, n@),
    {
        text_contains(n.as_str(), self.auth.as_str())
    }

    pub fn is_fallible(&self, n: &String) -> (r: bool)
        ensures
            r == is_fallible_name(*self, n@),
    {
        text_contains(n.as_str(), self.fallible.as_str())
    }
}

/// The names of `ty` along its first generic arguments, outermost first.
pub fn filter_type(ty: &TypeDescriptor) -> (r: Vec<String>)
    ensures
        r@.map_values(|s: String| s@) == chain(*ty),
{
    let mut r: Vec<String> = Vec::new();
    let mut cur: &TypeDescriptor = ty;
    while cur.args.len() > 0
        invariant
            r@.map_values(|s: String| s@) + chain(*cur) == chain(*ty),
        decreases depth(*cur),
    {
        let ghost before = r@;
        r.push(cur.name.clone());
        proof {
            assert(r@.map_values(|s: String| s@) =~= before.map_values(|s: String| s@).push(cur.name@));
            assert(chain(*cur) =~= seq![cur.name@] + chain(cur.args@[0]));
        }
        cur = &cur.args[0];
    }
    let ghost before = r@;
    r.push(cur.name.clone());
    proof {
        assert(r@.map_values(|s: String| s@) =~= before.map_values(|s: String| s@).push(cur.name@));
    }
    r
}

/// The names along the first generic arguments of `ty`, without its own name.
pub fn extract_generic_ident(ty: &TypeDescriptor) -> (r: Vec<String>)
    ensures
        r@.map_values(|s: String| s@) == (if ty.args@.len() > 0 {
            chain(ty.args@[0])
        } else {
            Seq::<Seq<char>>::empty()
        }),
{
    if ty.args.len() > 0 {
        filter_type(&ty.args[0])
    } else {
        let r: Vec<String> = Vec::new();
        proof {
            assert(r@.map_values(|s: String| s@) =~= Seq::<Seq<char>>::empty());
        }
        r
    }
}

/// The role of a parameter of type `ty`, as `source_of` gives it.
pub fn classify_parameter(table: &ClassificationTable, ty: &TypeDescriptor) -> (r: ParameterSource)
    ensures
        r@ == source_of(*table, chain(*ty)),
{
    let c = filter_type(ty);
    let ghost cv = chain(*ty);
    let n: usize = c.len();
    proof {
        assert(cv.len() == n);
        assert forall|i: int| 0 <= i < n implies #[trigger] cv[i] == c@[i]@ by {
            assert(c@.map_values(|s: String| s@)[i] == c@[i]@);
        }
    }
    if n == 0 {
        return ParameterSource::Ignored;
    }
    if c[0] == table.query {
        return ParameterSource::Query(c[n - 1].clone());
    }
    if c[0] == table.header {
        return ParameterSource::Header(c[n - 1].clone());
    }
    let mut b: usize = 0;
    while b < n && !table.is_body(&c[b])
        invariant
            b <= n,
            n == c@.len(),
            forall|i: int| 0 <= i < b ==> !is_body_name(*table, #[trigger] cv[i]),
            forall|i: int| 0 <= i < n ==> #[trigger] cv[i] == c@[i]@,
        decreases n - b,
    {
        b = b + 1;
    }
    proof {
        lemma_first_index_at(cv, body_pred(*table), b as int);
    }
    if b < n {
        let ghost sfx = cv.skip(b as int);
        let mut f: usize = b;
        while f < n && !table.is_fallible(&c[f])
            invariant
                b <= f <= n,
                n == c@.len(),
                forall|i: int| b <= i < f ==> !is_fallible_name(*table, #[trigger] cv[i]),
                forall|i: int| 0 <= i < n ==> #[trigger] cv[i] == c@[i]@,
            decreases n - f,
        {
            f = f + 1;
        }
        if f < n {
            proof {
                assert(sfx[f - b] == cv[f as int]);
            }
            if n - b > 2 {
                proof {
                    assert(sfx[2] == cv[b + 2]);
                }
                ParameterSource::Body(c[b + 2].clone())
            } else {
                ParameterSource::Ignored
            }
        } else {
            proof {
                assert forall|i: int| 0 <= i < sfx.len() implies !is_fallible_name(*table, #[trigger] sfx[i]) by {
                    assert(sfx[i] == cv[b + i]);
                }
            }
            ParameterSource::Body(c[n - 1].clone())
        }
    } else {
        let mut a: usize = 0;
        while a < n && !table.is_auth(&c[a])
            invariant
                a <= n,
                n == c@.len(),
                forall|i: int| 0 <= i < a ==> !is_auth_name(*table, #[trigger] cv[i]),
                forall|i: int| 0 <= i < n ==> #[trigger] cv[i] == c@[i]@,
            decreases n - a,
        {
            a = a + 1;
        }
        proof {
            lemma_first_index_at(cv, auth_pred(*table), a as int);
        }
        if a < n {
            ParameterSource::Security(c[n - 1].clone())
        } else {
            ParameterSource::Ignored
        }
    }
}

/// What a handler's signature supplies: for each role the type named by the last parameter
/// that has it, and the success body type of the return type.
pub struct ClassifiedSignature {
    pub query: Option<String>,
    pub header: Option<String>,
    pub body: Option<String>,
    pub security: Option<String>,
    pub response: Option<String>,
}

pub struct SignatureView {
    pub query: Option<Seq<char>>,
    pub header: Option<Seq<char>>,
    pub body: Option<Seq<char>>,
    pub security: Option<Seq<char>>,
    pub response: Option<Seq<char>>,
}

pub open spec fn opt_view(o: Option<String>) -> Option<Seq<char>> {
    match o {
        Some(s) => Some(s@),
        None => None,
    }
}

impl View for ClassifiedSignature {
    type V = SignatureView;

    open spec fn view(&self) -> SignatureView {
        SignatureView {
            query: opt_view(self.query),
            header: opt_view(self.header),
            body: opt_view(self.body),
            security: opt_view(self.security),
            response: opt_view(self.response),
        }
    }
}

/// `sig` after one more parameter with role `src`: that role now names its type.
pub open spec fn with_source(sig: SignatureView, src: SourceView) -> SignatureView {
    match src {
        SourceView::Query(n) => SignatureView { query: Some(n), ..sig },
        SourceView::Header(n) => SignatureView { header: Some(n), ..sig },
        SourceView::Body(n) => SignatureView { body: Some(n), ..sig },
        SourceView::Security(n) => SignatureView { security: Some(n), ..sig },
        SourceView::Ignored => sig,
    }
}

/// The roles of parameters `ps` taken in order, so that the last parameter with a role wins.
pub open spec fn classify_params(table: ClassificationTable, ps: Seq<TypeDescriptor>) -> SignatureView
    decreases ps.len(),
{
    if ps.len() == 0 {
        SignatureView { query: None, header: None, body: None, security: None, response: None }
    } else {
        with_source(classify_params(table, ps.drop_last()), source_of(table, chain(ps.last())))
    }
}

/// The success body type of a return type: its innermost name, where some name in it marks a
/// body.
pub open spec fn response_of(table: ClassificationTable, ret: TypeDescriptor) -> Option<Seq<char>> {
    if first_index(chain(ret), body_pred(table)) >= 0 {
        Some(chain(ret).last())
    } else {
        None
    }
}

/// Classifies a handler's parameters, in order, and its return type.
pub fn classify(table: &ClassificationTable, params: &Vec<TypeDescriptor>, ret: &TypeDescriptor) -> (r: ClassifiedSignature)
    ensures
        r@ == (SignatureView { response: response_of(*table, *ret), ..classify_params(*table, params@) }),
{
    let mut sig = ClassifiedSignature { query: None, header: None, body: None, security: None, response: None };
    let mut i: usize = 0;
    while i < params.len()
        invariant
            i <= params@.len(),
            sig@ == (SignatureView { response: None, ..classify_params(*table, params@.take(i as int)) }),
        decreases params@.len() - i,
    {
        proof {
            assert(params@.take(i as int + 1).drop_last() =~= params@.take(i as int));
        }
        match classify_parameter(table, &params[i]) {
            ParameterSource::Query(n) => sig.query = Some(n),
            ParameterSource::Header(n) => sig.header = Some(n),
            ParameterSource::Body(n) => sig.body = Some(n),
            ParameterSource::Security(n) => sig.security = Some(n),
            ParameterSource::Ignored => {},
        }
        i = i + 1;
    }
    proof {
        assert(params@.take(i as int) =~= params@);
    }
    let c = filter_type(ret);
    let ghost cv = chain(*ret);
    let n: usize = c.len();
    proof {
        assert forall|k: int| 0 <= k < n implies #[trigger] cv[k] == c@[k]@ by {
            assert(c@.map_values(|s: String| s@)[k] == c@[k]@);
        }
    }
    let mut b: usize = 0;
    while b < n && !table.is_body(&c[b])
        invariant
            b <= n,
            n == c@.len(),
            n == cv.len(),
            forall|k: int| 0 <= k < b ==> !is_body_name(*table, #[trigger] cv[k]),
            forall|k: int| 0 <= k < n ==> #[trigger] cv[k] == c@[k]@,
        decreases n - b,
    {
        b = b + 1;
    }
    proof {
        lemma_first_index_at(cv, body_pred(*table), b as int);
    }
    if b < n {
        sig.response = Some(c[n - 1].clone());
    }
    sig
}

} // verus!
