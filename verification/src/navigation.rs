//! Moving through a fixed cycle of choices, forwards and backwards.

use vstd::prelude::*;

verus! {

/// The place after `index` in a cycle of `len` places.
pub open spec fn next_index(index: int, len: int) -> int {
    (index + 1) % len
}

/// The place before `index` in a cycle of `len` places.
pub open spec fn previous_index(index: int, len: int) -> int {
    if index == 0 {
        len - 1
    } else {
        index - 1
    }
}

/// A step forward and a step back lead to where one was, and so do a step
/// back and a step forward.
pub proof fn lemma_steps_undo_each_other(index: int, len: int)
    requires
        0 <= index < len,
    ensures
        previous_index(next_index(index, len), len) == index,
        next_index(previous_index(index, len), len) == index,
        0 <= next_index(index, len) < len,
        0 <= previous_index(index, len) < len,
{
    if index + 1 < len {
        assert((index + 1) % len == index + 1) by (nonlinear_arith)
            requires
                0 <= index + 1 < len,
        ;
    } else {
        assert((index + 1) % len == 0) by (nonlinear_arith)
            requires
                index + 1 == len,
                len > 0,
        ;
    }
    if index > 0 {
        assert((index - 1 + 1) % len == index) by (nonlinear_arith)
            requires
                0 <= index < len,
        ;
    } else {
        assert((len - 1 + 1) % len == 0) by (nonlinear_arith)
            requires
                len > 0,
        ;
    }
}

/// The element of `order` at place `i`, where `i` is in range.
pub fn pick<T: Copy>(order: &Vec<T>, i: usize) -> (r: T)
    requires
        i < order.len(),
    ensures
        r == order@[i as int],
{
    order[i]
}

/// The place after `i` in a cycle of `len` places.
pub fn step_forward(i: usize, len: usize) -> (r: usize)
    requires
        i < len,
    ensures
        r == next_index(i as int, len as int),
        r < len,
{
    if i + 1 == len {
        0
    } else {
        assert((i + 1) % (len as int) == i + 1) by (nonlinear_arith)
            requires
                0 <= i + 1 < len,
        ;
        i + 1
    }
}

/// The place before `i` in a cycle of `len` places.
pub fn step_backward(i: usize, len: usize) -> (r: usize)
    requires
        i < len,
    ensures
        r == previous_index(i as int, len as int),
        r < len,
{
    if i == 0 {
        len - 1
    } else {
        i - 1
    }
}

/// A choice among a fixed cycle of choices of its own kind.
///
/// `order` is the cycle and `index` the place of a choice in it. A choice that
/// is not part of its cycle has no place: it cannot be asked for its
/// neighbours.
pub trait OrderNavigation: Copy + Clone + PartialEq {
    /// The cycle, in order.
    spec fn order(&self) -> Seq<Self>;

    /// The place of this choice in the cycle.
    spec fn index(&self) -> int;

    /// This choice is part of the cycle.
    spec fn in_order(&self) -> bool;

    /// The place of a choice of the cycle is in range and holds that choice.
    proof fn lemma_index(&self)
        requires
            self.in_order(),
        ensures
            0 <= self.index() < self.order().len(),
            self.order()[self.index()] == *self,
    ;

    /// Every place of the cycle holds a choice of this cycle, which knows its
    /// place.
    proof fn lemma_member(&self, i: int)
        requires
            0 <= i < self.order().len(),
        ensures
            self.order()[i].in_order(),
            self.order()[i].order() == self.order(),
            self.order()[i].index() == i,
    ;

    /// The cycle, in order.
    fn get_order(&self) -> (r: Vec<Self>)
        ensures
            r@ == self.order(),
    ;

    /// The choice after this one; after the last comes the first.
    fn next(&self) -> (r: Self)
        requires
            self.in_order(),
        ensures
            r == self.order()[next_index(self.index(), self.order().len() as int)],
            r.in_order(),
            r.order() == self.order(),
            r.index() == next_index(self.index(), self.order().len() as int),
            self.order()[previous_index(r.index(), self.order().len() as int)] == *self,
    {
        proof {
            self.lemma_index();
            lemma_steps_undo_each_other(self.index(), self.order().len() as int);
            self.lemma_member(next_index(self.index(), self.order().len() as int));
        }
        let order = self.get_order();
        pick(&order, step_forward(self.get_index(), order.len()))
    }

    /// The choice before this one; before the first comes the last.
    fn previous(&self) -> (r: Self)
        requires
            self.in_order(),
        ensures
            r == self.order()[previous_index(self.index(), self.order().len() as int)],
            r.in_order(),
            r.order() == self.order(),
            r.index() == previous_index(self.index(), self.order().len() as int),
            self.order()[next_index(r.index(), self.order().len() as int)] == *self,
    {
        proof {
            self.lemma_index();
            lemma_steps_undo_each_other(self.index(), self.order().len() as int);
            self.lemma_member(previous_index(self.index(), self.order().len() as int));
        }
        let order = self.get_order();
        pick(&order, step_backward(self.get_index(), order.len()))
    }

    /// The place of this choice in the cycle.
    fn get_index(&self) -> (i: usize)
        requires
            self.in_order(),
        ensures
            i == self.index(),
    ;
}

/// The choice after `t` in its cycle.
pub open spec fn after<T: OrderNavigation>(t: T) -> T {
    t.order()[next_index(t.index(), t.order().len() as int)]
}

/// The choice before `t` in its cycle.
pub open spec fn before<T: OrderNavigation>(t: T) -> T {
    t.order()[previous_index(t.index(), t.order().len() as int)]
}

/// In every cycle, the choice after a choice and the choice before it are
/// choices of the cycle, and a step forward and a step back undo each other.
pub proof fn lemma_neighbours<T: OrderNavigation>(t: T)
    requires
        t.in_order(),
    ensures
        after(t).in_order(),
        before(t).in_order(),
        before(after(t)) == t,
        after(before(t)) == t,
{
    let len = t.order().len() as int;
    t.lemma_index();
    lemma_steps_undo_each_other(t.index(), len);
    t.lemma_member(next_index(t.index(), len));
    t.lemma_member(previous_index(t.index(), len));
}

/// Something in which one item at a time is selected.
pub trait Navigation {
    /// There is an item to select.
    spec fn navigable(&self) -> bool;

    /// Go to the next item. Unless a type says otherwise, nothing happens.
    fn next(&mut self)
        requires
            old(self).navigable(),
    {
    }

    /// Go to the previous item. Unless a type says otherwise, nothing
    /// happens.
    fn previous(&mut self)
        requires
            old(self).navigable(),
    {
    }
}

/// The HTTP method of a request.
#[derive(Clone, Copy, Debug, PartialEq, Eq, Structural)]
pub enum RequestMethod {
    Get,
    Post,
    Put,
    Patch,
    Delete,
}

impl RequestMethod {
    /// The cycle of methods.
    pub open spec fn cycle() -> Seq<RequestMethod> {
        seq![
            RequestMethod::Get,
            RequestMethod::Post,
            RequestMethod::Put,
            RequestMethod::Patch,
            RequestMethod::Delete,
        ]
    }

    /// The method's name as it is written in a request.
    pub open spec fn name(self) -> Seq<char> {
        match self {
            RequestMethod::Get => "GET"@,
            RequestMethod::Post => "POST"@,
            RequestMethod::Put => "PUT"@,
            RequestMethod::Patch => "PATCH"@,
            RequestMethod::Delete => "DELETE"@,
        }
    }

    /// The method's name as it is written in a request.
    pub fn to_string(&self) -> (r: String)
        ensures
            r@ == self.name(),
    {
        match self {
            RequestMethod::Get => "GET".to_owned(),
            RequestMethod::Post => "POST".to_owned(),
            RequestMethod::Put => "PUT".to_owned(),
            RequestMethod::Patch => "PATCH".to_owned(),
            RequestMethod::Delete => "DELETE".to_owned(),
        }
    }
}

impl OrderNavigation for RequestMethod {
    open spec fn order(&self) -> Seq<Self> {
        Self::cycle()
    }

    open spec fn index(&self) -> int {
        match self {
            RequestMethod::Get => 0,
            RequestMethod::Post => 1,
            RequestMethod::Put => 2,
            RequestMethod::Patch => 3,
            RequestMethod::Delete => 4,
        }
    }

    open spec fn in_order(&self) -> bool {
        true
    }

    proof fn lemma_index(&self) {
    }

    proof fn lemma_member(&self, i: int) {
    }

    fn get_order(&self) -> (r: Vec<Self>) {
        let mut r: Vec<Self> = Vec::new();
        r.push(RequestMethod::Get);
        r.push(RequestMethod::Post);
        r.push(RequestMethod::Put);
        r.push(RequestMethod::Patch);
        r.push(RequestMethod::Delete);
        assert(r@ =~= Self::cycle());
        r
    }

    fn get_index(&self) -> (i: usize) {
        match self {
            RequestMethod::Get => 0,
            RequestMethod::Post => 1,
            RequestMethod::Put => 2,
            RequestMethod::Patch => 3,
            RequestMethod::Delete => 4,
        }
    }
}

/// The panes of the screen that can be selected.
#[derive(Clone, Copy, Debug, PartialEq, Eq, Structural)]
pub enum AppBlock {
    Endpoint,
    Method,
    Request,
    RequestContent,
    Response,
}

impl AppBlock {
    /// The cycle of panes.
    pub open spec fn cycle() -> Seq<AppBlock> {
        seq![
            AppBlock::Method,
            AppBlock::Endpoint,
            AppBlock::Request,
            AppBlock::RequestContent,
            AppBlock::Response,
        ]
    }
}

impl OrderNavigation for AppBlock {
    open spec fn order(&self) -> Seq<Self> {
        Self::cycle()
    }

    open spec fn index(&self) -> int {
        match self {
            AppBlock::Method => 0,
            AppBlock::Endpoint => 1,
            AppBlock::Request => 2,
            AppBlock::RequestContent => 3,
            AppBlock::Response => 4,
        }
    }

    open spec fn in_order(&self) -> bool {
        true
    }

    proof fn lemma_index(&self) {
    }

    proof fn lemma_member(&self, i: int) {
    }

    fn get_order(&self) -> (r: Vec<Self>) {
        let mut r: Vec<Self> = Vec::new();
        r.push(AppBlock::Method);
        r.push(AppBlock::Endpoint);
        r.push(AppBlock::Request);
        r.push(AppBlock::RequestContent);
        r.push(AppBlock::Response);
        assert(r@ =~= Self::cycle());
        r
    }

    fn get_index(&self) -> (i: usize) {
        match self {
            AppBlock::Method => 0,
            AppBlock::Endpoint => 1,
            AppBlock::Request => 2,
            AppBlock::RequestContent => 3,
            AppBlock::Response => 4,
        }
    }
}

/// The tabs of the request pane. Only the first three are part of the cycle.
#[derive(Clone, Copy, Debug, PartialEq, Eq, Structural)]
pub enum RequestTab {
    Body,
    Query,
    Headers,
    Auth,
    Cookies,
}

impl RequestTab {
    /// The cycle of tabs.
    pub open spec fn cycle() -> Seq<RequestTab> {
        seq![RequestTab::Body, RequestTab::Query, RequestTab::Headers]
    }
}

impl OrderNavigation for RequestTab {
    open spec fn order(&self) -> Seq<Self> {
        Self::cycle()
    }

    open spec fn index(&self) -> int {
        match self {
            RequestTab::Body => 0,
            RequestTab::Query => 1,
            RequestTab::Headers => 2,
            RequestTab::Auth => 3,
            RequestTab::Cookies => 4,
        }
    }

    open spec fn in_order(&self) -> bool {
        *self == RequestTab::Body || *self == RequestTab::Query || *self == RequestTab::Headers
    }

    proof fn lemma_index(&self) {
    }

    proof fn lemma_member(&self, i: int) {
    }

    fn get_order(&self) -> (r: Vec<Self>) {
        let mut r: Vec<Self> = Vec::new();
        r.push(RequestTab::Body);
        r.push(RequestTab::Query);
        r.push(RequestTab::Headers);
        assert(r@ =~= Self::cycle());
        r
    }

    fn get_index(&self) -> (i: usize) {
        match self {
            RequestTab::Body => 0,
            RequestTab::Query => 1,
            RequestTab::Headers => 2,
            RequestTab::Auth => 3,
            RequestTab::Cookies => 4,
        }
    }
}

impl RequestTab {
    /// The number of a tab, counted from zero in the order in which the tabs
    /// are shown.
    pub open spec fn number(self) -> usize {
        match self {
            RequestTab::Body => 0,
            RequestTab::Query => 1,
            RequestTab::Headers => 2,
            RequestTab::Auth => 3,
            RequestTab::Cookies => 4,
        }
    }

    /// The tab with the number `index`. The tabs have the numbers zero to
    /// four.
    pub fn from_index(index: usize) -> (tab: Self)
        requires
            index <= 4,
        ensures
            tab.number() == index,
    {
        if index == 0 {
            RequestTab::Body
        } else if index == 1 {
            RequestTab::Query
        } else if index == 2 {
            RequestTab::Headers
        } else if index == 3 {
            RequestTab::Auth
        } else {
            RequestTab::Cookies
        }
    }
}

impl From<RequestTab> for usize {
    /// The number of a tab.
    fn from(tab: RequestTab) -> (r: usize) {
        match tab {
            RequestTab::Body => 0,
            RequestTab::Query => 1,
            RequestTab::Headers => 2,
            RequestTab::Auth => 3,
            RequestTab::Cookies => 4,
        }
    }
}

impl vstd::std_specs::convert::FromSpecImpl<RequestTab> for usize {
    open spec fn obeys_from_spec() -> bool {
        true
    }

    open spec fn from_spec(tab: RequestTab) -> usize {
        tab.number()
    }
}

impl AppBlock {
    /// The number of a pane, counted from one in the order of the cycle.
    pub open spec fn number(self) -> u16 {
        match self {
            AppBlock::Method => 1,
            AppBlock::Endpoint => 2,
            AppBlock::Request => 3,
            AppBlock::RequestContent => 4,
            AppBlock::Response => 5,
        }
    }

    /// The pane with the number `number`. The panes have the numbers one to
    /// five.
    pub fn from_number(number: u16) -> (block: Self)
        requires
            1 <= number <= 5,
        ensures
            block.number() == number,
    {
        if number == 1 {
            AppBlock::Method
        } else if number == 2 {
            AppBlock::Endpoint
        } else if number == 3 {
            AppBlock::Request
        } else if number == 4 {
            AppBlock::RequestContent
        } else {
            AppBlock::Response
        }
    }
}

impl From<AppBlock> for u16 {
    /// The number of a pane.
    fn from(block: AppBlock) -> (r: u16) {
        match block {
            AppBlock::Method => 1,
            AppBlock::Endpoint => 2,
            AppBlock::Request => 3,
            AppBlock::RequestContent => 4,
            AppBlock::Response => 5,
        }
    }
}

impl vstd::std_specs::convert::FromSpecImpl<AppBlock> for u16 {
    open spec fn obeys_from_spec() -> bool {
        true
    }

    open spec fn from_spec(block: AppBlock) -> u16 {
        block.number()
    }
}

} // verus!
