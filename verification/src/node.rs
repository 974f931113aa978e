use vstd::prelude::*;
use vstd::string::*;

verus! {

/// A string value carried by the tree: today only a string literal.
#[derive(Debug, Clone, PartialEq)]
pub enum RudStr {
    StringLit(String),
}

impl View for RudStr {
    type V = Seq<char>;

    open spec fn view(&self) -> Seq<char> {
        match self {
            RudStr::StringLit(s) => s@,
        }
    }
}

impl RudStr {
    pub fn to_s(&self) -> (r: String)
        ensures
            r@ == self@,
    {
        match self {
            RudStr::StringLit(s) => s.clone(),
        }
    }
}

/// A standard-function call: a fixed set of built-in operations.  Today the
/// only one is the console print.
#[derive(Debug, Clone, PartialEq)]
pub enum RudStdFn {
    Puts { s: RudStr },
}

impl View for RudStdFn {
    type V = Seq<char>;

    open spec fn view(&self) -> Seq<char> {
        match self {
            RudStdFn::Puts { s } => s@,
        }
    }
}

impl RudStdFn {
    pub fn new_from_string(s: &str) -> (r: RudStdFn)
        ensures
            r@ == s@,
    {
        let rud_str = RudStr::StringLit(s.to_owned());
        RudStdFn::Puts { s: rud_str }
    }
}

/// The rendering of a console-print call: the argument text is embedded
/// verbatim, with no escaping.
pub open spec fn render_call(s: Seq<char>) -> Seq<char> {
    "println!(\""@ + s + "\");"@
}

impl RudStdFn {
    pub fn to_code(&self) -> (r: String)
        ensures
            r@ == render_call(self@),
    {
        match self {
            RudStdFn::Puts { s } => {
                let mut out = String::new();
                out.append("println!(\"");
                let text = s.to_s();
                out.append(text.as_str());
                out.append("\");");
                out
            },
        }
    }
}

/// The closed set of recognized type spellings.  An unrecognized spelling
/// silently maps to the absent type.
#[derive(Debug, Clone, Copy, PartialEq, Eq)]
pub enum RudType {
    Usize,
    NoType,
}

/// What a type-name spelling resolves to.
pub open spec fn type_of_name(w: Seq<char>) -> RudType {
    if w == "usize"@ {
        RudType::Usize
    } else {
        RudType::NoType
    }
}

impl RudType {
    pub fn try_from(s: &str) -> (r: Option<RudType>)
        ensures
            r == Some(type_of_name(s@)),
    {
        if crate::token::str_eq(s, "usize") {
            Some(RudType::Usize)
        } else {
            Some(RudType::NoType)
        }
    }

    pub fn to_s(self) -> (r: Option<String>)
        ensures
            self == RudType::Usize ==> (r matches Some(s) && s@ == "usize"@),
            self == RudType::NoType ==> r is None,
    {
        match self {
            RudType::Usize => Some("usize".to_owned()),
            RudType::NoType => None,
        }
    }
}

/// One typed parameter of a function definition.
#[derive(Debug, Clone, PartialEq)]
pub struct RudArg {
    pub name: String,
    pub rud_type: RudType,
}

/// The mathematical value of a parameter.
pub struct SpecArg {
    pub name: Seq<char>,
    pub rud_type: RudType,
}

impl View for RudArg {
    type V = SpecArg;

    open spec fn view(&self) -> SpecArg {
        SpecArg { name: self.name@, rud_type: self.rud_type }
    }
}

impl RudArg {
    pub fn new(name: &str, rud_type: RudType) -> (r: RudArg)
        ensures
            r@ == (SpecArg { name: name@, rud_type }),
    {
        RudArg { name: name.to_owned(), rud_type }
    }
}

/// A user-defined function definition: visibility, name, parameters, return
/// type and the exclusively owned list of body nodes.
#[derive(Debug, PartialEq)]
pub struct UserDefinedFn {
    pub is_public: bool,
    pub name: String,
    pub args: Vec<RudArg>,
    pub return_type: RudType,
    pub inner: NodeList,
}

/// The abstract syntax tree: a tagged variant over the two recognized
/// constructs.
#[derive(Debug, PartialEq)]
pub enum Node {
    RudStdFn(RudStdFn),
    UserDefinedFn(UserDefinedFn),
}

pub type NodeList = Vec<Node>;

/// The mathematical value of a function definition.
pub struct SpecUserFn {
    pub is_public: bool,
    pub name: Seq<char>,
    pub args: Seq<SpecArg>,
    pub return_type: RudType,
    pub inner: Seq<SpecNode>,
}

/// The mathematical value of a tree node.
pub enum SpecNode {
    RudStdFn(Seq<char>),
    UserDefinedFn(SpecUserFn),
}

pub open spec fn node_view(n: Node) -> SpecNode
    decreases n,
{
    match n {
        Node::RudStdFn(f) => SpecNode::RudStdFn(f@),
        Node::UserDefinedFn(f) => SpecNode::UserDefinedFn(fn_view(f)),
    }
}

pub open spec fn fn_view(f: UserDefinedFn) -> SpecUserFn
    decreases f,
{
    SpecUserFn {
        is_public: f.is_public,
        name: f.name@,
        args: f.args@.map_values(|a: RudArg| a@),
        return_type: f.return_type,
        inner: nodes_view(f.inner@),
    }
}

pub open spec fn nodes_view(ns: Seq<Node>) -> Seq<SpecNode>
    decreases ns,
{
    if ns.len() == 0 {
        Seq::empty()
    } else {
        seq![node_view(ns[0])] + nodes_view(ns.subrange(1, ns.len() as int))
    }
}

impl UserDefinedFn {
    pub fn new(
        is_public: bool,
        name: &str,
        args: Vec<RudArg>,
        return_type: RudType,
        inner: NodeList,
    ) -> (r: UserDefinedFn)
        ensures
            fn_view(r) == (SpecUserFn {
                is_public,
                name: name@,
                args: args@.map_values(|a: RudArg| a@),
                return_type,
                inner: nodes_view(inner@),
            }),
    {
        UserDefinedFn { is_public, name: name.to_owned(), args, return_type, inner }
    }
}

/// The rendering of a function definition.  The parameter list and an
/// explicit return type are carried by the tree but emit no text today.
pub open spec fn render_fn(f: SpecUserFn) -> Seq<char>
    decreases f,
{
    (if f.is_public {
        "pub "@
    } else {
        Seq::<char>::empty()
    }) + "fn "@ + f.name + "() {\n"@ + render_body(f.inner) + "}"@
}

/// The rendering of a body: each node on a line of its own, indented by
/// four spaces.
pub open spec fn render_body(ns: Seq<SpecNode>) -> Seq<char>
    decreases ns,
{
    if ns.len() == 0 {
        Seq::empty()
    } else {
        "    "@ + render_node(ns[0]) + "\n"@ + render_body(ns.subrange(1, ns.len() as int))
    }
}

/// The rendering of one node into output text, one fixed textual form per
/// variant.
pub open spec fn render_node(n: SpecNode) -> Seq<char>
    decreases n,
{
    match n {
        SpecNode::RudStdFn(s) => render_call(s),
        SpecNode::UserDefinedFn(f) => render_fn(f),
    }
}

/// Rendering distributes over concatenation of body node lists.
pub proof fn lemma_render_body_app(a: Seq<SpecNode>, b: Seq<SpecNode>)
    ensures
        render_body(a + b) == render_body(a) + render_body(b),
    decreases a.len(),
{
    if a.len() == 0 {
        assert(a + b =~= b);
        assert(render_body(a) + render_body(b) =~= render_body(b));
    } else {
        assert((a + b).len() > 0);
        assert((a + b)[0] == a[0]);
        assert((a + b).subrange(1, (a + b).len() as int) =~= a.subrange(1, a.len() as int) + b);
        lemma_render_body_app(a.subrange(1, a.len() as int), b);
        assert(render_body(a + b) =~= render_body(a) + render_body(b));
    }
}

/// The view of a node list distributes over appending one node.
pub proof fn lemma_nodes_view_push(ns: Seq<Node>, i: int)
    requires
        0 <= i < ns.len(),
    ensures
        nodes_view(ns.subrange(0, i + 1)) == nodes_view(ns.subrange(0, i)) + seq![
            node_view(ns[i]),
        ],
    decreases i,
{
    let pre = ns.subrange(0, i + 1);
    if i == 0 {
        assert(pre.subrange(1, pre.len() as int) =~= Seq::<Node>::empty());
        assert(nodes_view(Seq::<Node>::empty()) =~= Seq::<SpecNode>::empty());
        assert(nodes_view(ns.subrange(0, 0)) =~= Seq::<SpecNode>::empty());
        assert(nodes_view(pre) =~= seq![node_view(ns[0])]);
    } else {
        let tail = ns.subrange(1, ns.len() as int);
        assert(pre.len() > 0);
        assert(pre.subrange(1, pre.len() as int) =~= tail.subrange(0, i));
        assert(ns.subrange(0, i).subrange(1, i) =~= tail.subrange(0, i - 1));
        lemma_nodes_view_push(tail, i - 1);
        assert(tail.subrange(0, i - 1 + 1) =~= tail.subrange(0, i));
        assert(tail[i - 1] == ns[i]);
        assert(ns.subrange(0, i).len() > 0);
        assert(nodes_view(ns.subrange(0, i + 1)) =~= nodes_view(ns.subrange(0, i)) + seq![
            node_view(ns[i]),
        ]);
    }
}

impl UserDefinedFn {
    pub fn to_code(&self) -> (r: String)
        ensures
            r@ == render_fn(fn_view(*self)),
        decreases *self,
    {
        let mut s = String::new();
        if self.is_public {
            s.append("pub ");
        }
        s.append("fn ");
        s.append(self.name.as_str());
        s.append("() {\n");
        let ghost header = s@;
        let n = self.inner.len();
        let mut i: usize = 0;
        while i < n
            invariant
                n == self.inner.len(),
                i <= n,
                s@ == header + render_body(nodes_view(self.inner@.subrange(0, i as int))),
            decreases n - i,
        {
            proof {
                assert(decreases_to!(*self => self.inner));
                assert(decreases_to!(self.inner => self.inner@));
                assert(decreases_to!(self.inner@ => self.inner@[i as int]));
            }
            s.append("    ");
            let code = self.inner[i].to_code();
            s.append(code.as_str());
            s.append("\n");
            proof {
                lemma_nodes_view_push(self.inner@, i as int);
                lemma_render_body_app(
                    nodes_view(self.inner@.subrange(0, i as int)),
                    seq![node_view(self.inner@[i as int])],
                );
                let one = seq![node_view(self.inner@[i as int])];
                assert(one.subrange(1, one.len() as int) =~= Seq::<SpecNode>::empty());
                assert(render_body(Seq::<SpecNode>::empty()) =~= Seq::<char>::empty());
                assert(render_body(one) =~= "    "@ + render_node(one[0]) + "\n"@);
            }
            i = i + 1;
        }
        s.append("}");
        proof {
            assert(self.inner@.subrange(0, n as int) =~= self.inner@);
        }
        s
    }
}

impl Node {
    pub fn to_code(&self) -> (r: String)
        ensures
            r@ == render_node(node_view(*self)),
        decreases *self,
    {
        match self {
            Node::RudStdFn(rud_std_fn) => rud_std_fn.to_code(),
            Node::UserDefinedFn(user_defined_fn) => user_defined_fn.to_code(),
        }
    }
}

} // verus!
