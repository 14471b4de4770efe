//! Parameters, the bag that accumulates them, and the naming rules that turn
//! a remote path into an environment variable name.

use vstd::prelude::*;
use vstd::string::*;
use vstd::std_specs::cmp::PartialEqSpecImpl;
use vstd::std_specs::iter::IteratorSpec;

verus! {

/// One parameter: an environment variable name and its value.
#[derive(Debug)]
pub struct Param {
    pub key: String,
    pub value: String,
}

impl View for Param {
    type V = (Seq<char>, Seq<char>);

    open spec fn view(&self) -> (Seq<char>, Seq<char>) {
        (self.key@, self.value@)
    }
}

impl PartialEq for Param {
    fn eq(&self, other: &Param) -> (r: bool) {
        self.key == other.key && self.value == other.value
    }
}

impl PartialEqSpecImpl for Param {
    open spec fn obeys_eq_spec() -> bool {
        true
    }

    open spec fn eq_spec(&self, other: &Param) -> bool {
        self.key@ == other.key@ && self.value@ == other.value@
    }
}

/// The parameters of `v` as pairs of texts, in the same order.
pub open spec fn param_views(v: Seq<Param>) -> Seq<(Seq<char>, Seq<char>)> {
    Seq::new(v.len(), |i: int| v[i]@)
}

/// The text of an optional string.
pub open spec fn text_of(o: Option<String>) -> Option<Seq<char>> {
    match o {
        Some(s) => Some(s@),
        None => None,
    }
}

/// What a `ParamBag` holds, as mathematical values.
pub struct ParamBagView {
    pub prefix: Seq<char>,
    pub params: Seq<(Seq<char>, Seq<char>)>,
    pub next: Option<Seq<char>>,
}

impl ParamBagView {
    /// Whether the prefix is rooted: it begins with `/`.
    pub open spec fn is_rooted(self) -> bool {
        self.prefix.len() > 0 && self.prefix[0] == '/'
    }
}

/// The accumulator of one run: the path prefix, the parameters in the order
/// in which they arrived, and the cursor of the next page if there is one.
/// Both constructors root the prefix, so that it begins with `/`.
#[derive(Debug)]
pub struct ParamBag {
    pub prefix: String,
    pub params: Vec<Param>,
    pub next: Option<String>,
}

impl View for ParamBag {
    type V = ParamBagView;

    open spec fn view(&self) -> ParamBagView {
        ParamBagView {
            prefix: self.prefix@,
            params: param_views(self.params@),
            next: text_of(self.next),
        }
    }
}

/// One entry of a remote listing; the service may leave out either field.
#[derive(Debug)]
pub struct RemoteParam {
    pub name: Option<String>,
    pub value: Option<String>,
}

impl View for RemoteParam {
    type V = (Option<Seq<char>>, Option<Seq<char>>);

    open spec fn view(&self) -> (Option<Seq<char>>, Option<Seq<char>>) {
        (text_of(self.name), text_of(self.value))
    }
}

/// The entries of `v` as pairs of optional texts, in the same order.
pub open spec fn remote_views(v: Seq<RemoteParam>) -> Seq<(Option<Seq<char>>, Option<Seq<char>>)> {
    Seq::new(v.len(), |i: int| v[i]@)
}

/// What a `Page` holds, as mathematical values. A page without a list of
/// entries holds no entry.
pub struct PageView {
    pub entries: Seq<(Option<Seq<char>>, Option<Seq<char>>)>,
    pub next_token: Option<Seq<char>>,
}

/// One response of the paged listing: its entries and, when more pages
/// follow, the cursor that fetches the next one.
#[derive(Debug)]
pub struct Page {
    pub parameters: Option<Vec<RemoteParam>>,
    pub next_token: Option<String>,
}

impl View for Page {
    type V = PageView;

    open spec fn view(&self) -> PageView {
        PageView {
            entries: match self.parameters {
                Some(v) => remote_views(v@),
                None => Seq::empty(),
            },
            next_token: text_of(self.next_token),
        }
    }
}

/// The path `p` made absolute: unchanged when it already starts with `/`,
/// otherwise with a `/` put in front.
pub open spec fn normalized_path(p: Seq<char>) -> Seq<char> {
    if p.len() > 0 && p[0] == '/' {
        p
    } else {
        seq!['/'] + p
    }
}

/// Roots a path prefix: the result always begins with `/`.
pub fn normalize_path(path: &str) -> (r: String)
    ensures
        r@ == normalized_path(path@),
{
    if !path.is_empty() && path.get_char(0) == '/' {
        path.to_owned()
    } else {
        proof {
            reveal_strlit("/");
        }
        let r = String::from_str("/").concat(path);
        assert(r@ =~= seq!['/'] + path@);
        r
    }
}

/// What `str::to_uppercase` returns for the text `s`.
pub uninterp spec fn uppercase(s: Seq<char>) -> Seq<char>;

/// Upper-cases a text with `str::to_uppercase`; the result is the one the
/// name `uppercase` stands for.
#[verifier::external_body]
fn to_upper(s: &str) -> (r: String)
    ensures
        r@ == uppercase(s@),
{
    s.to_uppercase()
}

/// The position just behind the last `/` of `s` among its first `n`
/// characters, or 0 when none of them is a `/`.
pub open spec fn segment_start(s: Seq<char>, n: int) -> int
    decreases n,
{
    if n <= 0 {
        0
    } else if s[n - 1] == '/' {
        n
    } else {
        segment_start(s, n - 1)
    }
}

/// The last segment of a remote name: what follows its last `/`, or the
/// whole name when it holds no `/`.
pub open spec fn last_segment(s: Seq<char>) -> Seq<char> {
    s.subrange(segment_start(s, s.len() as int), s.len() as int)
}

/// The environment variable name of a remote parameter name.
pub open spec fn env_name(name: Seq<char>) -> Seq<char> {
    uppercase(last_segment(name))
}

/// A rooted path begins with `/`.
pub proof fn normalized_path_is_rooted(p: Seq<char>)
    ensures
        normalized_path(p).len() > 0,
        normalized_path(p)[0] == '/',
{
}

/// Rooting a path a second time changes nothing.
pub proof fn normalized_path_is_idempotent(p: Seq<char>)
    ensures
        normalized_path(normalized_path(p)) == normalized_path(p),
{
    normalized_path_is_rooted(p);
}

/// A name that holds no `/` is its own last segment, so its environment
/// variable name is the whole name in upper case.
pub proof fn env_name_without_separator(name: Seq<char>)
    requires
        forall|i: int| 0 <= i < name.len() ==> name[i] != '/',
    ensures
        last_segment(name) == name,
        env_name(name) == uppercase(name),
{
    lemma_segment_start_none(name, name.len() as int);
    assert(name.subrange(0, name.len() as int) =~= name);
}

/// The last segment of a name is what follows its last `/`.
pub proof fn env_name_after_last_separator(name: Seq<char>, at: int)
    requires
        0 <= at < name.len(),
        name[at] == '/',
        forall|i: int| at < i < name.len() ==> name[i] != '/',
    ensures
        last_segment(name) == name.subrange(at + 1, name.len() as int),
        env_name(name) == uppercase(name.subrange(at + 1, name.len() as int)),
{
    lemma_segment_start_last(name, name.len() as int, at);
}

proof fn lemma_segment_start_none(s: Seq<char>, n: int)
    requires
        0 <= n <= s.len(),
        forall|i: int| 0 <= i < n ==> s[i] != '/',
    ensures
        segment_start(s, n) == 0,
    decreases n,
{
    if n > 0 {
        lemma_segment_start_none(s, n - 1);
    }
}

proof fn lemma_segment_start_last(s: Seq<char>, n: int, at: int)
    requires
        0 <= at < n <= s.len(),
        s[at] == '/',
        forall|i: int| at < i < n ==> s[i] != '/',
    ensures
        segment_start(s, n) == at + 1,
    decreases n,
{
    if n - 1 > at {
        lemma_segment_start_last(s, n - 1, at);
    }
}

/// Where the last segment of `name` begins, counted in characters, together
/// with the number of characters of `name`.
fn find_segment(name: &str) -> (r: (usize, usize))
    ensures
        r.1 == name@.len(),
        r.0 == segment_start(name@, name@.len() as int),
        r.0 <= r.1,
{
    broadcast use vstd::string::group_string_axioms;

    let n = name.unicode_len();
    let mut chars = name.chars();
    let mut start: usize = 0;
    let mut i: usize = 0;
    loop
        invariant
            chars.obeys_prophetic_iter_laws(),
            n == name@.len(),
            i <= n,
            chars.remaining() == name@.skip(i as int),
            start == segment_start(name@, i as int),
            start <= i,
        ensures
            i == n,
        decreases n - i,
    {
        match chars.next() {
            Some(c) => {
                assert(c == name@[i as int]);
                assert(name@.skip(i as int).drop_first() =~= name@.skip(i as int + 1));
                i = i + 1;
                if c == '/' {
                    start = i;
                }
            },
            None => {
                break ;
            },
        }
    }
    (start, n)
}

/// The last path segment of a remote name: what follows its last `/`, or
/// the whole name when it holds no `/`.
pub fn segment_of(name: &str) -> (r: &str)
    ensures
        r@ == last_segment(name@),
{
    let (start, n) = find_segment(name);
    name.substring_char(start, n)
}

/// Reduces a fully-qualified remote name to its last path segment, in upper
/// case. A name without `/` is taken whole.
pub fn to_env_name(name: &str) -> (r: String)
    ensures
        r@ == env_name(name@),
{
    to_upper(segment_of(name))
}

/// The parameters that a list of remote entries contributes: each entry
/// that has both a name and a value, in order, under its environment
/// variable name. Entries that lack either field contribute nothing.
/// Entries whose names end in the same segment all stay, each at its place:
/// nothing is merged or overwritten here.
pub open spec fn page_params(entries: Seq<(Option<Seq<char>>, Option<Seq<char>>)>) -> Seq<
    (Seq<char>, Seq<char>),
>
    decreases entries.len(),
{
    if entries.len() == 0 {
        Seq::empty()
    } else {
        let before = page_params(entries.drop_last());
        match entries.last() {
            (Some(name), Some(value)) => before.push((env_name(name), value)),
            _ => before,
        }
    }
}

/// The bag `bag` after the page `page` has been taken in: the page's
/// parameters behind those already held, and the page's cursor in place of
/// the old one.
pub open spec fn processed(bag: ParamBagView, page: PageView) -> ParamBagView {
    ParamBagView {
        prefix: bag.prefix,
        params: bag.params + page_params(page.entries),
        next: page.next_token,
    }
}

/// The pairs of `v` as pairs of texts, in the same order.
pub open spec fn pair_views(v: Seq<(String, String)>) -> Seq<(Seq<char>, Seq<char>)> {
    Seq::new(v.len(), |i: int| (v[i].0@, v[i].1@))
}

impl ParamBag {
    /// An empty bag for the parameters under `path`, which is rooted first.
    pub fn new(path: &str) -> (r: ParamBag)
        ensures
            r@ == (ParamBagView {
                prefix: normalized_path(path@),
                params: Seq::empty(),
                next: None,
            }),
            r@.is_rooted(),
    {
        let r = ParamBag { prefix: normalize_path(path), params: Vec::new(), next: None };
        assert(r@.params =~= Seq::empty());
        r
    }

    /// The bag to write back: the entries of a local key/value source, in
    /// their order, under `prefix`, which is rooted first. The empty prefix
    /// is rooted like any other, to `/`.
    pub fn from_dotenv(entries: &Vec<(String, String)>, prefix: &str) -> (r: ParamBag)
        ensures
            r@ == (ParamBagView {
                prefix: normalized_path(prefix@),
                params: pair_views(entries@),
                next: None,
            }),
            r@.is_rooted(),
    {
        let mut params: Vec<Param> = Vec::new();
        let mut i: usize = 0;
        while i < entries.len()
            invariant
                i <= entries.len(),
                param_views(params@) =~= pair_views(entries@).take(i as int),
            decreases entries.len() - i,
        {
            let entry = &entries[i];
            let ghost held = params@;
            params.push(Param { key: entry.0.clone(), value: entry.1.clone() });
            assert(param_views(params@) =~= param_views(held).push((entry.0@, entry.1@)));
            assert(pair_views(entries@).take(i as int + 1) =~= pair_views(entries@).take(
                i as int,
            ).push((entry.0@, entry.1@)));
            i = i + 1;
        }
        assert(pair_views(entries@).take(i as int) =~= pair_views(entries@));
        ParamBag { prefix: normalize_path(prefix), params, next: None }
    }

    /// Takes one page of the listing into the bag: every entry with both a
    /// name and a value is appended under its environment variable name, the
    /// others are dropped, and the page's cursor replaces the bag's.
    pub fn process(self, page: &Page) -> (r: ParamBag)
        ensures
            r@ == processed(self@, page@),
            self@.is_rooted() ==> r@.is_rooted(),
    {
        let ghost before = self@;
        let mut bag = self;
        match &page.parameters {
            Some(entries) => {
                let mut i: usize = 0;
                while i < entries.len()
                    invariant
                        i <= entries.len(),
                        bag.prefix@ == before.prefix,
                        param_views(bag.params@) =~= before.params + page_params(
                            remote_views(entries@).take(i as int),
                        ),
                    decreases entries.len() - i,
                {
                    let entry = &entries[i];
                    proof {
                        let upto = remote_views(entries@).take(i as int + 1);
                        assert(upto.drop_last() =~= remote_views(entries@).take(i as int));
                        assert(upto.last() == entry@);
                    }
                    match (&entry.name, &entry.value) {
                        (Some(name), Some(value)) => {
                            let ghost held = bag.params@;
                            bag.params.push(
                                Param { key: to_env_name(name.as_str()), value: value.clone() },
                            );
                            assert(param_views(bag.params@) =~= param_views(held).push(
                                (env_name(name@), value@),
                            ));
                        },
                        _ => {},
                    }
                    i = i + 1;
                }
                assert(remote_views(entries@).take(i as int) =~= remote_views(entries@));
            },
            None => {
                assert(param_views(bag.params@) =~= before.params + page_params(Seq::empty()));
            },
        }
        bag.next = page.next_token.clone();
        bag
    }
}

} // verus!