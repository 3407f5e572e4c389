//! Lists shown page by page.
use vstd::prelude::*;
use vstd::string::*;

use crate::dashboard::snapshot::{ClientInfo, TunnelInfo};
use crate::text::{has_part, lower_all, trim};
use crate::text::{contains_str, lower_str, same, trim_lower, trim_str};

verus! {

pub const DEFAULT_PAGE: usize = 1;

pub const DEFAULT_PAGE_SIZE: usize = 50;

/// How many items a page may have.
pub const MAX_PAGE_SIZE: usize = 200;

/// One page of a list.
#[derive(Debug)]
pub struct Page<T> {
    /// How long the whole list is.
    pub total: usize,
    pub page: usize,
    pub page_size: usize,
    pub items: Vec<T>,
}

/// The page that is shown: the first where none is asked for.
pub open spec fn page_shown(page: usize) -> usize {
    if page == 0 {
        1
    } else {
        page
    }
}

/// How many items a page has: at least one, and not too many.
pub open spec fn size_shown(page_size: usize) -> usize {
    if page_size < 1 {
        1
    } else if page_size > MAX_PAGE_SIZE {
        MAX_PAGE_SIZE
    } else {
        page_size
    }
}

/// The items of a page; none behind the end of the list.
pub open spec fn on_page<T>(list: Seq<T>, page: usize, page_size: usize) -> Seq<T> {
    let size = size_shown(page_size) as int;
    let from = (page_shown(page) - 1) * size;
    if from >= list.len() {
        seq![]
    } else if from + size >= list.len() {
        list.skip(from)
    } else {
        list.subrange(from, from + size)
    }
}

/// Cuts one page out of a list.
pub fn page_of<T>(list: Vec<T>, page: usize, page_size: usize) -> (r: Page<T>)
    ensures
        r.total == list@.len(),
        r.page == page_shown(page),
        r.page_size == size_shown(page_size),
        r.items@ == on_page(list@, page, page_size),
{
    let shown: usize = if page == 0 {
        1
    } else {
        page
    };
    let size: usize = if page_size < 1 {
        1
    } else if page_size > MAX_PAGE_SIZE {
        MAX_PAGE_SIZE
    } else {
        page_size
    };
    let total: usize = list.len();
    let ghost whole = list@;
    assert((shown - 1) * size <= u64::MAX * 200) by (nonlinear_arith)
        requires
            1 <= shown <= u64::MAX,
            size <= 200,
    ;
    let from: u128 = (shown - 1) as u128 * size as u128;
    let mut rest = list;
    if from >= total as u128 {
        return Page { total, page: shown, page_size: size, items: Vec::new() };
    }
    let mut items = rest.split_off(from as usize);
    if items.len() > size {
        items.truncate(size);
    }
    assert(items@ =~= on_page(whole, page, page_size));
    Page { total, page: shown, page_size: size, items }
}

/// Every item of a list stands on exactly one page, at a place that its position
/// tells.
pub proof fn every_item_has_its_page<T>(list: Seq<T>, i: int, page: usize, page_size: usize)
    requires
        0 <= i < list.len(),
        page > 0,
    ensures
        ({
            let size = size_shown(page_size) as int;
            let items = on_page(list, page, page_size);
            &&& i / size == page - 1 ==> i % size < items.len() && items[i % size] == list[i]
            &&& items.len() <= size
            &&& forall|j: int|
                0 <= j < items.len() ==> #[trigger] items[j] == list[(page - 1) * size + j] && (
                page - 1) * size + j < list.len()
        }),
{
    let size = size_shown(page_size) as int;
    let from = (page - 1) * size;
    assert(size > 0);
    assert(i == size * (i / size) + i % size && 0 <= i % size < size) by (nonlinear_arith)
        requires
            size > 0,
    ;
    if i / size == page - 1 {
        assert(size * (i / size) == from) by (nonlinear_arith)
            requires
                i / size == page - 1,
                from == (page - 1) * size,
        ;
    }
    assert(from >= 0) by (nonlinear_arith)
        requires
            page > 0,
            size > 0,
            from == (page - 1) * size,
    ;
}

/// Whether a tunnel is shown: those of one client where one is asked for, and those
/// with a piece of text in their names, whatever its case.
pub open spec fn is_shown(t: TunnelInfo, session_id: Seq<char>, needle: Seq<char>) -> bool {
    &&& trim(session_id).len() == 0 || t.session_id@ == trim(session_id)
    &&& trim(needle).len() == 0 || has_part(lower_all(t.name@), lower_all(trim(needle)))
}

/// The tunnels that are shown, in their order.
pub open spec fn shown(list: Seq<TunnelInfo>, session_id: Seq<char>, needle: Seq<char>) -> Seq<
    TunnelInfo,
>
    decreases list.len(),
{
    if list.len() == 0 {
        seq![]
    } else {
        let front = shown(list.drop_last(), session_id, needle);
        if is_shown(list.last(), session_id, needle) {
            front.push(list.last())
        } else {
            front
        }
    }
}

fn shows(t: &TunnelInfo, session_id: &str, needle: &str) -> (r: bool)
    ensures
        r == is_shown(*t, session_id@, needle@),
{
    let id = trim_str(session_id);
    let part = trim_lower(needle);
    (id.is_empty() || same(t.session_id.as_str(), id)) && (part.as_str().is_empty()
        || contains_str(lower_str(t.name.as_str()).as_str(), part.as_str()))
}

/// One page of the tunnels that are shown.
pub fn list_tunnels(
    tunnels: Vec<TunnelInfo>,
    session_id: &str,
    needle: &str,
    page: usize,
    page_size: usize,
) -> (r: Page<TunnelInfo>)
    ensures
        r.total == shown(tunnels@, session_id@, needle@).len(),
        r.page == page_shown(page),
        r.page_size == size_shown(page_size),
        r.items@ == on_page(shown(tunnels@, session_id@, needle@), page, page_size),
{
    let ghost whole = tunnels@;
    let mut rest = tunnels;
    let mut out: Vec<TunnelInfo> = Vec::new();
    let n: usize = rest.len();
    let mut i: usize = 0;
    assert(whole.take(0) =~= seq![]);
    assert(whole.skip(0) =~= whole);
    while i < n
        invariant
            i <= n,
            n == whole.len(),
            rest@ == whole.skip(i as int),
            out@ == shown(whole.take(i as int), session_id@, needle@),
        decreases n - i,
    {
        let t = rest.remove(0);
        assert(t == whole[i as int]);
        assert(rest@ =~= whole.skip(i + 1));
        assert(whole.take(i + 1).drop_last() =~= whole.take(i as int));
        if shows(&t, session_id, needle) {
            out.push(t);
        }
        i += 1;
    }
    assert(whole.take(i as int) =~= whole);
    page_of(out, page, page_size)
}

/// One page of the clients.
pub fn list_clients(clients: Vec<ClientInfo>, page: usize, page_size: usize) -> (r: Page<
    ClientInfo,
>)
    ensures
        r.total == clients@.len(),
        r.page == page_shown(page),
        r.page_size == size_shown(page_size),
        r.items@ == on_page(clients@, page, page_size),
{
    page_of(clients, page, page_size)
}

/// Whether a client is meant by a name: that of its session or of its agent.
pub open spec fn is_meant(c: ClientInfo, id: Seq<char>) -> bool {
    c.session_id@ == id || c.agent_id@ == id
}

/// Where the first client that is meant by a name stands.
pub fn get_client(clients: &Vec<ClientInfo>, id: &str) -> (r: Option<usize>)
    ensures
        match r {
            Some(i) => {
                &&& i < clients@.len() && is_meant(clients@[i as int], id@)
                &&& forall|j: int| 0 <= j < i ==> !is_meant(#[trigger] clients@[j], id@)
            },
            None => forall|j: int|
                0 <= j < clients@.len() ==> !is_meant(#[trigger] clients@[j], id@),
        },
{
    let n: usize = clients.len();
    let mut i: usize = 0;
    while i < n
        invariant
            i <= n,
            n == clients@.len(),
            forall|j: int| 0 <= j < i ==> !is_meant(#[trigger] clients@[j], id@),
        decreases n - i,
    {
        if same(clients[i].session_id.as_str(), id) || same(clients[i].agent_id.as_str(), id) {
            return Some(i);
        }
        i += 1;
    }
    None
}

/// What was searched for is what is found: a tunnel is shown if and only if it stands
/// in the list and meets the search.
pub proof fn shown_tunnels_meet_the_search(
    list: Seq<TunnelInfo>,
    session_id: Seq<char>,
    needle: Seq<char>,
    t: TunnelInfo,
)
    ensures
        shown(list, session_id, needle).contains(t) <==> list.contains(t) && is_shown(
            t,
            session_id,
            needle,
        ),
        shown(list, session_id, needle).len() <= list.len(),
    decreases list.len(),
{
    if list.len() > 0 {
        let front = list.drop_last();
        let before = shown(front, session_id, needle);
        let after = shown(list, session_id, needle);
        shown_tunnels_meet_the_search(front, session_id, needle, t);
        if list.contains(t) && t != list.last() {
            let k = list.index_of(t);
            assert(front[k] == t);
        }
        if front.contains(t) {
            let k = front.index_of(t);
            assert(list[k] == t);
        }
        if before.contains(t) {
            let k = before.index_of(t);
            assert(after[k] == t);
        }
        if after.contains(t) {
            let k = after.index_of(t);
            if k < before.len() {
                assert(before[k] == t);
            }
        }
        if is_shown(list.last(), session_id, needle) {
            assert(after[before.len() as int] == list.last());
        }
        assert(list[list.len() - 1] == list.last());
    }
}

} // verus!
