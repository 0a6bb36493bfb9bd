//! An in-memory tree of an XML document, built from its parse events.

use vstd::prelude::*;

verus! {

/// A parse event, as far as the tree builder reads it.
#[derive(Debug)]
pub enum ParseEvent {
    /// An opening tag: its local name and its attributes (local name, value) in document order.
    StartElement(String, Vec<(String, String)>),
    /// A closing tag and its local name.
    EndElement(String),
    /// Character data.
    Characters(String),
    /// The end of the document.
    EndDocument,
    /// A syntax error; no event follows it.
    Error,
    /// Any other event (declaration, comment, whitespace, CDATA, ...).
    Other,
}

/// The model of a parse event.
pub enum ParseEventView {
    StartElement(Seq<char>, Seq<(Seq<char>, Seq<char>)>),
    EndElement(Seq<char>),
    Characters(Seq<char>),
    EndDocument,
    Error,
    Other,
}

pub open spec fn pair_view(p: (String, String)) -> (Seq<char>, Seq<char>) {
    (p.0@, p.1@)
}

pub open spec fn pairs_view(ps: Seq<(String, String)>) -> Seq<(Seq<char>, Seq<char>)> {
    ps.map_values(|p: (String, String)| pair_view(p))
}

impl View for ParseEvent {
    type V = ParseEventView;

    open spec fn view(&self) -> ParseEventView {
        match self {
            ParseEvent::StartElement(name, attrs) => ParseEventView::StartElement(
                name@,
                pairs_view(attrs@),
            ),
            ParseEvent::EndElement(name) => ParseEventView::EndElement(name@),
            ParseEvent::Characters(data) => ParseEventView::Characters(data@),
            ParseEvent::EndDocument => ParseEventView::EndDocument,
            ParseEvent::Error => ParseEventView::Error,
            ParseEvent::Other => ParseEventView::Other,
        }
    }
}

pub open spec fn events_view(evs: Seq<ParseEvent>) -> Seq<ParseEventView> {
    evs.map_values(|e: ParseEvent| e@)
}

/// The events that xml-rs's `EventReader` reports for the document `raw`,
/// the final `EndDocument` or error included.
pub uninterp spec fn xml_events(raw: Seq<char>) -> Seq<ParseEventView>;

/// Runs xml-rs's pull parser (`EventReader::from_str`, iterated until it
/// stops) over `raw` and keeps of each event what the tree builder reads.
/// The contract only names the result: it depends on `raw` alone.
#[verifier::external_body]
fn read_events(raw: &str) -> (res: Vec<ParseEvent>)
    ensures
        events_view(res@) == xml_events(raw@),
{
    xml::reader::EventReader::from_str(raw).into_iter().map(|ev| match ev {
        Ok(xml::reader::XmlEvent::StartElement { name, attributes, .. }) => ParseEvent::StartElement(
            name.local_name,
            attributes.into_iter().map(|a| (a.name.local_name, a.value)).collect(),
        ),
        Ok(xml::reader::XmlEvent::EndElement { name }) => ParseEvent::EndElement(name.local_name),
        Ok(xml::reader::XmlEvent::Characters(data)) => ParseEvent::Characters(data),
        Ok(xml::reader::XmlEvent::EndDocument) => ParseEvent::EndDocument,
        Err(_) => ParseEvent::Error,
        Ok(_) => ParseEvent::Other,
    }).collect()
}

/// The model of a node: its text, its attributes and its named children in order.
pub struct XmlTree {
    pub value: Seq<char>,
    pub attributes: Seq<(Seq<char>, Seq<char>)>,
    pub children: Seq<(Seq<char>, XmlTree)>,
}

/// A node with no text and no children.
pub open spec fn fresh_tree(attributes: Seq<(Seq<char>, Seq<char>)>) -> XmlTree {
    XmlTree { value: Seq::empty(), attributes, children: Seq::empty() }
}

/// `t` with one more child at the end.
pub open spec fn with_child(t: XmlTree, name: Seq<char>, child: XmlTree) -> XmlTree {
    XmlTree { children: t.children.push((name, child)), ..t }
}

/// Reads events from position `i` into the node `t`: an opening tag reads a
/// child up to its end and adds it, character data replaces the node's text,
/// a closing tag, the end of the document or an error ends the node; other
/// events are skipped. Past the last event the node ends as well. Returns the
/// node and the position after the last event read. `fuel` bounds the depth.
pub open spec fn build(evs: Seq<ParseEventView>, i: int, t: XmlTree, fuel: nat) -> (XmlTree, int)
    decreases fuel,
{
    if fuel == 0 || i < 0 || i >= evs.len() {
        (t, i)
    } else {
        match evs[i] {
            ParseEventView::StartElement(name, attrs) => {
                let r = build(evs, i + 1, fresh_tree(attrs), (fuel - 1) as nat);
                build(evs, r.1, with_child(t, name, r.0), (fuel - 1) as nat)
            },
            ParseEventView::Characters(data) => build(
                evs,
                i + 1,
                XmlTree { value: data, ..t },
                (fuel - 1) as nat,
            ),
            ParseEventView::Other => build(evs, i + 1, t, (fuel - 1) as nat),
            _ => (t, i + 1),
        }
    }
}

/// `build` with enough fuel never to run out.
pub open spec fn parse_from(evs: Seq<ParseEventView>, i: int, t: XmlTree) -> (XmlTree, int) {
    build(evs, i, t, (evs.len() - i + 1) as nat)
}

/// The tree of a whole document: a root with no attributes holding what the events build.
pub open spec fn document_tree(evs: Seq<ParseEventView>) -> XmlTree {
    parse_from(evs, 0, fresh_tree(Seq::empty())).0
}

proof fn lemma_build_advances(evs: Seq<ParseEventView>, i: int, t: XmlTree, fuel: nat)
    requires
        0 <= i,
    ensures
        build(evs, i, t, fuel).1 >= i,
    decreases fuel,
{
    if fuel == 0 || i >= evs.len() {
    } else {
        match evs[i] {
            ParseEventView::StartElement(name, attrs) => {
                let r = build(evs, i + 1, fresh_tree(attrs), (fuel - 1) as nat);
                lemma_build_advances(evs, i + 1, fresh_tree(attrs), (fuel - 1) as nat);
                lemma_build_advances(evs, r.1, with_child(t, name, r.0), (fuel - 1) as nat);
            },
            ParseEventView::Characters(data) => {
                lemma_build_advances(evs, i + 1, XmlTree { value: data, ..t }, (fuel - 1) as nat);
            },
            ParseEventView::Other => {
                lemma_build_advances(evs, i + 1, t, (fuel - 1) as nat);
            },
            _ => {},
        }
    }
}

proof fn lemma_build_bounded(evs: Seq<ParseEventView>, i: int, t: XmlTree, fuel: nat)
    requires
        0 <= i <= evs.len(),
    ensures
        build(evs, i, t, fuel).1 <= evs.len(),
    decreases fuel,
{
    if fuel == 0 || i >= evs.len() {
    } else {
        match evs[i] {
            ParseEventView::StartElement(name, attrs) => {
                let r = build(evs, i + 1, fresh_tree(attrs), (fuel - 1) as nat);
                lemma_build_bounded(evs, i + 1, fresh_tree(attrs), (fuel - 1) as nat);
                lemma_build_advances(evs, i + 1, fresh_tree(attrs), (fuel - 1) as nat);
                lemma_build_bounded(evs, r.1, with_child(t, name, r.0), (fuel - 1) as nat);
            },
            ParseEventView::Characters(data) => {
                lemma_build_bounded(evs, i + 1, XmlTree { value: data, ..t }, (fuel - 1) as nat);
            },
            ParseEventView::Other => {
                lemma_build_bounded(evs, i + 1, t, (fuel - 1) as nat);
            },
            _ => {},
        }
    }
}

proof fn lemma_build_fuel(evs: Seq<ParseEventView>, i: int, t: XmlTree, f: nat, g: nat)
    requires
        0 <= i,
        f >= evs.len() - i + 1,
        g >= evs.len() - i + 1,
    ensures
        build(evs, i, t, f) == build(evs, i, t, g),
    decreases f,
{
    if i >= evs.len() {
    } else {
        match evs[i] {
            ParseEventView::StartElement(name, attrs) => {
                let r = build(evs, i + 1, fresh_tree(attrs), (f - 1) as nat);
                lemma_build_fuel(evs, i + 1, fresh_tree(attrs), (f - 1) as nat, (g - 1) as nat);
                lemma_build_advances(evs, i + 1, fresh_tree(attrs), (f - 1) as nat);
                lemma_build_fuel(
                    evs,
                    r.1,
                    with_child(t, name, r.0),
                    (f - 1) as nat,
                    (g - 1) as nat,
                );
            },
            ParseEventView::Characters(data) => {
                lemma_build_fuel(
                    evs,
                    i + 1,
                    XmlTree { value: data, ..t },
                    (f - 1) as nat,
                    (g - 1) as nat,
                );
            },
            ParseEventView::Other => {
                lemma_build_fuel(evs, i + 1, t, (f - 1) as nat, (g - 1) as nat);
            },
            _ => {},
        }
    }
}

/// The children of `cs` named `name`, in order.
pub open spec fn named(cs: Seq<(Seq<char>, XmlTree)>, name: Seq<char>) -> Seq<XmlTree>
    decreases cs.len(),
{
    if cs.len() == 0 {
        Seq::empty()
    } else if cs[0].0 == name {
        seq![cs[0].1] + named(cs.skip(1), name)
    } else {
        named(cs.skip(1), name)
    }
}

/// The value of the last attribute named `key`, if any.
pub open spec fn attr_lookup(attrs: Seq<(Seq<char>, Seq<char>)>, key: Seq<char>) -> Option<Seq<char>>
    decreases attrs.len(),
{
    if attrs.len() == 0 {
        None
    } else if attrs.last().0 == key {
        Some(attrs.last().1)
    } else {
        attr_lookup(attrs.drop_last(), key)
    }
}

/// A node of a parsed XML document.
#[derive(Debug)]
pub struct XmlNode {
    pub value: String,
    attributes: Vec<(String, String)>,
    children: Vec<(String, XmlNode)>,
}

impl XmlNode {
    /// The model of this node.
    pub closed spec fn tree(self) -> XmlTree
        decreases self, 1int,
    {
        XmlTree {
            value: self.value@,
            attributes: pairs_view(self.attributes@),
            children: forest(self.children@),
        }
    }
}

/// The models of a sequence of named children.
pub closed spec fn forest(cs: Seq<(String, XmlNode)>) -> Seq<(Seq<char>, XmlTree)>
    decreases cs, 0int,
{
    if cs.len() == 0 {
        Seq::empty()
    } else {
        proof {
            assert(decreases_to!(cs => cs[cs.len() - 1]));
        }
        forest(cs.drop_last()).push((cs[cs.len() - 1].0@, cs[cs.len() - 1].1.tree()))
    }
}

proof fn lemma_forest(cs: Seq<(String, XmlNode)>)
    ensures
        forest(cs).len() == cs.len(),
        forall|i: int|
            0 <= i < cs.len() ==> #[trigger] forest(cs)[i] == (cs[i].0@, cs[i].1.tree()),
    decreases cs.len(),
{
    if cs.len() > 0 {
        lemma_forest(cs.drop_last());
    }
}

proof fn lemma_forest_push(cs: Seq<(String, XmlNode)>, x: (String, XmlNode))
    ensures
        forest(cs.push(x)) == forest(cs).push((x.0@, x.1.tree())),
{
    assert(cs.push(x).drop_last() == cs);
}


proof fn lemma_named_step(cs: Seq<(Seq<char>, XmlTree)>, name: Seq<char>, i: int)
    requires
        0 <= i < cs.len(),
    ensures
        named(cs.skip(i), name) == (if cs[i].0 == name {
            seq![cs[i].1] + named(cs.skip(i + 1), name)
        } else {
            named(cs.skip(i + 1), name)
        }),
{
    assert(cs.skip(i).skip(1) == cs.skip(i + 1));
}

impl XmlNode {
    /// A node with no text, attributes or children.
    pub fn new() -> (res: XmlNode)
        ensures
            res.tree() == fresh_tree(Seq::empty()),
    {
        let res = XmlNode { value: String::new(), attributes: Vec::new(), children: Vec::new() };
        assert(pairs_view(res.attributes@) =~= Seq::empty());
        res
    }

    /// A new node, boxed.
    pub fn boxed() -> (res: Box<XmlNode>)
        ensures
            res.tree() == fresh_tree(Seq::empty()),
    {
        Box::new(XmlNode::new())
    }

    /// A node with no text or children and the given attributes.
    fn with_attributes(attributes: Vec<(String, String)>) -> (res: XmlNode)
        ensures
            res.tree() == fresh_tree(pairs_view(attributes@)),
    {
        XmlNode { value: String::new(), attributes, children: Vec::new() }
    }

    /// Adds `node` as the last child named `key`, and returns it.
    pub fn add_child(&mut self, key: String, node: XmlNode) -> (res: &XmlNode)
        ensures
            final(self).tree() == with_child(old(self).tree(), key@, node.tree()),
            res.tree() == node.tree(),
    {
        proof {
            lemma_forest_push(self.children@, (key, node));
        }
        self.children.push((key, node));
        let last = self.children.len() - 1;
        &self.children[last].1
    }

    /// Adds a new child named `key` whose text is `val`, and returns it.
    pub fn add_new_child(&mut self, key: String, val: String) -> (res: &XmlNode)
        ensures
            final(self).tree() == with_child(
                old(self).tree(),
                key@,
                XmlTree { value: val@, ..fresh_tree(Seq::empty()) },
            ),
            res.tree() == (XmlTree { value: val@, ..fresh_tree(Seq::empty()) }),
    {
        let mut node = XmlNode::new();
        node.value = val;
        self.add_child(key, node)
    }

    /// The text of this node.
    pub fn text(&self) -> (res: &String)
        ensures
            res@ == self.tree().value,
    {
        &self.value
    }

    /// The attributes (local name, value) of this node, in document order.
    pub fn attributes(&self) -> (res: &Vec<(String, String)>)
        ensures
            pairs_view(res@) == self.tree().attributes,
    {
        &self.attributes
    }

    /// The value of the attribute named `key`, if the node has one.
    pub fn attribute(&self, key: &str) -> (res: Option<&String>)
        ensures
            match res {
                Some(v) => attr_lookup(self.tree().attributes, key@) == Some(v@),
                None => attr_lookup(self.tree().attributes, key@) is None,
            },
    {
        let ghost attrs = self.tree().attributes;
        let mut i = self.attributes.len();
        assert(attrs.take(i as int) == attrs);
        while i > 0
            invariant
                i <= self.attributes.len(),
                attrs == pairs_view(self.attributes@),
                attr_lookup(attrs, key@) == attr_lookup(attrs.take(i as int), key@),
            decreases i,
        {
            let ghost pre = attrs.take(i as int);
            assert(pre.drop_last() == attrs.take(i - 1));
            if crate::text::str_eq(self.attributes[i - 1].0.as_str(), key) {
                return Some(&self.attributes[i - 1].1);
            }
            i = i - 1;
        }
        None
    }

    /// Whether the node has a child named `name`.
    pub fn has_matching_child(&self, name: &str) -> (res: bool)
        ensures
            res == (named(self.tree().children, name@).len() > 0),
    {
        let ghost cs = self.tree().children;
        proof {
            lemma_forest(self.children@);
            assert(cs.skip(0) == cs);
        }
        let mut i: usize = 0;
        while i < self.children.len()
            invariant
                cs == forest(self.children@),
                cs.len() == self.children.len(),
                forall|j: int| 0 <= j < cs.len() ==> #[trigger] cs[j] == (self.children@[j].0@, self.children@[j].1.tree()),
                i <= cs.len(),
                named(cs, name@) == named(cs.skip(i as int), name@),
            decreases self.children.len() - i,
        {
            proof {
                lemma_named_step(cs, name@, i as int);
            }
            if crate::text::str_eq(self.children[i].0.as_str(), name) {
                return true;
            }
            i = i + 1;
        }
        assert(cs.skip(i as int) =~= Seq::empty());
        false
    }

    /// The first child named `name` (`node[name]`).
    pub fn child(&self, name: &str) -> (res: &XmlNode)
        requires
            named(self.tree().children, name@).len() > 0,
        ensures
            res.tree() == named(self.tree().children, name@)[0],
    {
        let ghost cs = self.tree().children;
        proof {
            lemma_forest(self.children@);
            assert(cs.skip(0) == cs);
        }
        let mut i: usize = 0;
        while i < self.children.len()
            invariant
                cs == forest(self.children@),
                cs.len() == self.children.len(),
                forall|j: int| 0 <= j < cs.len() ==> #[trigger] cs[j] == (self.children@[j].0@, self.children@[j].1.tree()),
                i <= cs.len(),
                named(cs, name@) == named(cs.skip(i as int), name@),
                named(cs, name@).len() > 0,
            decreases self.children.len() - i,
        {
            proof {
                lemma_named_step(cs, name@, i as int);
            }
            if crate::text::str_eq(self.children[i].0.as_str(), name) {
                return &self.children[i].1;
            }
            i = i + 1;
        }
        assert(cs.skip(i as int) =~= Seq::empty());
        assert(false);
        &self.children[0].1
    }

    /// All children named `name`, in order.
    pub fn get_matching_children(&self, name: &str) -> (res: Vec<&XmlNode>)
        ensures
            res@.len() == named(self.tree().children, name@).len(),
            forall|j: int|
                0 <= j < res@.len() ==> #[trigger] res@[j].tree() == named(
                    self.tree().children,
                    name@,
                )[j],
    {
        let ghost cs = self.tree().children;
        proof {
            lemma_forest(self.children@);
            assert(cs.skip(0) == cs);
        }
        let mut res: Vec<&XmlNode> = Vec::new();
        let mut i: usize = 0;
        while i < self.children.len()
            invariant
                cs == forest(self.children@),
                cs.len() == self.children.len(),
                forall|j: int| 0 <= j < cs.len() ==> #[trigger] cs[j] == (self.children@[j].0@, self.children@[j].1.tree()),
                i <= cs.len(),
                named(cs, name@) == Seq::new(res@.len(), |j: int| res@[j].tree()) + named(cs.skip(i as int), name@),
            decreases self.children.len() - i,
        {
            proof {
                lemma_named_step(cs, name@, i as int);
            }
            let ghost before = Seq::new(res@.len(), |j: int| res@[j].tree());
            if crate::text::str_eq(self.children[i].0.as_str(), name) {
                res.push(&self.children[i].1);
                assert(Seq::new(res@.len(), |j: int| res@[j].tree()) == before.push(cs[i as int].1));
            }
            i = i + 1;
        }
        assert(cs.skip(i as int) =~= Seq::empty());
        assert(named(cs, name@) =~= Seq::new(res@.len(), |j: int| res@[j].tree()));
        res
    }

    /// The text of child number `idx` of a node whose children all have
    /// one name (`node[idx]`).
    pub fn value_at(&self, idx: usize) -> (res: &String)
        requires
            self.tree().children.len() > 0,
            forall|j: int|
                0 <= j < self.tree().children.len() ==> #[trigger] self.tree().children[j].0
                    == self.tree().children[0].0,
            idx < self.tree().children.len(),
        ensures
            res@ == self.tree().children[idx as int].1.value,
    {
        proof {
            lemma_forest(self.children@);
        }
        &self.children[idx].1.value
    }
}

/// A copy of a list of string pairs.
fn clone_pairs(ps: &Vec<(String, String)>) -> (res: Vec<(String, String)>)
    ensures
        pairs_view(res@) == pairs_view(ps@),
{
    let mut res: Vec<(String, String)> = Vec::new();
    let mut i: usize = 0;
    while i < ps.len()
        invariant
            i <= ps.len(),
            pairs_view(res@) == pairs_view(ps@.take(i as int)),
        decreases ps.len() - i,
    {
        let p = (ps[i].0.clone(), ps[i].1.clone());
        assert(pair_view(p) == pair_view(ps@[i as int]));
        let ghost before = res@;
        res.push(p);
        assert(ps@.take(i + 1) == ps@.take(i as int).push(ps@[i as int]));
        assert(res@ == before.push(p));
        assert(pairs_view(res@) =~= pairs_view(before).push(pair_view(p)));
        assert(pairs_view(ps@.take(i + 1)) =~= pairs_view(ps@.take(i as int)).push(pair_view(ps@[i as int])));
        i = i + 1;
    }
    assert(ps@.take(ps.len() as int) == ps@);
    res
}

/// Builds the node that starts at event `start` with the given attributes:
/// the exec form of `parse_from`.
fn create_from(evs: &Vec<ParseEvent>, start: usize, attributes: Vec<(String, String)>) -> (res: (XmlNode, usize))
    requires
        start <= evs.len(),
    ensures
        (res.0.tree(), res.1 as int) == parse_from(events_view(evs@), start as int, fresh_tree(pairs_view(attributes@))),
    decreases evs.len() - start,
{
    let ghost e = events_view(evs@);
    let ghost target = parse_from(e, start as int, fresh_tree(pairs_view(attributes@)));
    let mut node = XmlNode::with_attributes(attributes);
    let mut i: usize = start;
    assert(target == parse_from(e, i as int, node.tree()));
    loop
        invariant
            e == events_view(evs@),
            e.len() == evs.len(),
            start <= i <= evs.len(),
            target == parse_from(events_view(evs@), start as int, fresh_tree(pairs_view(attributes@))),
            target == parse_from(e, i as int, node.tree()),
        decreases evs.len() - i,
    {
        if i >= evs.len() {
            assert(parse_from(e, i as int, node.tree()) == (node.tree(), i as int));
            return (node, i);
        }
        let ghost t = node.tree();
        let ghost fuel = (e.len() - i + 1) as nat;
        assert(e[i as int] == evs@[i as int]@);
        match &evs[i] {
            ParseEvent::StartElement(name, attrs) => {
                let (child, j) = create_from(evs, i + 1, clone_pairs(attrs));
                proof {
                    lemma_build_advances(e, i + 1, fresh_tree(pairs_view(attrs@)), (fuel - 1) as nat);
                    lemma_build_bounded(e, i + 1, fresh_tree(pairs_view(attrs@)), (fuel - 1) as nat);
                    lemma_build_fuel(e, j as int, with_child(t, name@, child.tree()), (fuel - 1) as nat, (e.len() - j + 1) as nat);
                }
                node.add_child(name.clone(), child);
                i = j;
            },
            ParseEvent::Characters(data) => {
                node.value = data.clone();
                proof {
                    lemma_build_fuel(e, i + 1, node.tree(), (fuel - 1) as nat, (e.len() - i) as nat);
                }
                i = i + 1;
            },
            ParseEvent::Other => {
                proof {
                    lemma_build_fuel(e, i + 1, node.tree(), (fuel - 1) as nat, (e.len() - i) as nat);
                }
                i = i + 1;
            },
            _ => {
                assert(parse_from(e, i as int, node.tree()) == (node.tree(), i + 1));
                return (node, i + 1);
            },
        }
    }
}

/// A whole XML document, held as a tree.
pub struct XmlMap {
    pub root: Box<XmlNode>,
    pub raw_data: String,
}

impl XmlMap {
    /// The root node built from a document's events.
    pub fn create(events: &Vec<ParseEvent>) -> (res: Box<XmlNode>)
        ensures
            res.tree() == document_tree(events_view(events@)),
    {
        let attributes: Vec<(String, String)> = Vec::new();
        assert(pairs_view(attributes@) =~= Seq::empty());
        let (root, _) = create_from(events, 0, attributes);
        Box::new(root)
    }

    /// Parses the document `raw_data` with xml-rs and holds its tree.
    pub fn from_str(raw_data: &str) -> (res: XmlMap)
        ensures
            res.root.tree() == document_tree(xml_events(raw_data@)),
            res.raw_data@ == raw_data@,
    {
        let events = read_events(raw_data);
        let root = XmlMap::create(&events);
        XmlMap { root, raw_data: String::from_str(raw_data) }
    }
}

} // verus!
