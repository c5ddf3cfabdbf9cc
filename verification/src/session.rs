//! Interactive terminal sessions (`km ssh`, `km attach`): finding the server
//! of a container, the banner shown on connecting, and what to do with what
//! the user types.
use vstd::prelude::*;

use crate::requests::same_option_text;
use crate::text::texts_of;

verus! {

/// What a container lookup by name found.
#[derive(Debug)]
pub enum ContainerLookup {
    /// No container has that name.
    NotFound,
    /// Exactly one container has it; this is its server id, if it has one.
    Unique(Option<String>),
    /// Several containers have it; these are the server ids they name.
    Ambiguous(Vec<String>),
}

/// The server ids that are present, in order.
pub open spec fn present_ids(ids: Seq<Option<String>>) -> Seq<Seq<char>>
    decreases ids.len(),
{
    if ids.len() == 0 {
        Seq::empty()
    } else {
        present_ids(ids.drop_last()) + match ids.last() {
            Some(id) => seq![id@],
            None => Seq::empty(),
        }
    }
}

/// Sorts out the containers found by name, given the server id that each
/// names: none, exactly one (whose server is used), or several (whose
/// servers are listed to choose from).
pub fn lookup_container_server(server_ids: &Vec<Option<String>>) -> (r: ContainerLookup)
    ensures
        server_ids@.len() == 0 ==> r is NotFound,
        server_ids@.len() == 1 ==> (r matches ContainerLookup::Unique(id) && same_option_text(
            id,
            server_ids@[0],
        )),
        server_ids@.len() > 1 ==> (r matches ContainerLookup::Ambiguous(ids) && texts_of(ids@)
            == present_ids(server_ids@)),
{
    let n = server_ids.len();
    if n == 0 {
        return ContainerLookup::NotFound;
    }
    if n == 1 {
        let id = match &server_ids[0] {
            Some(s) => Some(s.clone()),
            None => None,
        };
        return ContainerLookup::Unique(id);
    }
    let mut ids: Vec<String> = Vec::new();
    let mut i: usize = 0;
    while i < n
        invariant
            i <= n,
            n == server_ids@.len(),
            texts_of(ids@) == present_ids(server_ids@.take(i as int)),
        decreases n - i,
    {
        let ghost before = ids@;
        assert(server_ids@.take(i + 1).drop_last() =~= server_ids@.take(i as int));
        assert(server_ids@.take(i + 1).last() == server_ids@[i as int]);
        match &server_ids[i] {
            Some(s) => {
                ids.push(s.clone());
                assert(texts_of(ids@) =~= texts_of(before) + seq![s@]);
            },
            None => {
                assert(texts_of(ids@) =~= texts_of(before) + Seq::<Seq<char>>::empty());
            },
        }
        i = i + 1;
    }
    assert(server_ids@.take(n as int) =~= server_ids@);
    ContainerLookup::Ambiguous(ids)
}

/// `Did not find any container matching <container>`.
pub fn no_container_message(container: &str) -> (r: String)
    ensures
        r@ == "Did not find any container matching "@ + container@,
{
    let mut s = String::from_str("Did not find any container matching ");
    s.append(container);
    s
}

/// The length of `# Connected to <label> (km) #`, the banner's plain text.
pub open spec fn banner_len(label: Seq<char>) -> nat {
    "# Connected to "@.len() + label.len() + " (km) #"@.len()
}

/// The line of `=` above and below the banner: as long as its plain text.
pub fn connection_border(label: &str) -> (r: String)
    ensures
        r@ == Seq::new(banner_len(label@), |i: int| '='),
{
    proof {
        reveal_strlit("# Connected to ");
        reveal_strlit(" (km) #");
    }
    let n = label.unicode_len();
    let mut s = String::new();
    let mut i: usize = 0;
    while i < 22
        invariant
            i <= 22,
            s@ == Seq::new(i as nat, |j: int| '='),
        decreases 22 - i,
    {
        crate::text::push_char(&mut s, '=');
        assert(s@ =~= Seq::new((i + 1) as nat, |j: int| '='));
        i = i + 1;
    }
    let mut k: usize = 0;
    while k < n
        invariant
            k <= n,
            n == label@.len(),
            s@ == Seq::new((22 + k) as nat, |j: int| '='),
        decreases n - k,
    {
        crate::text::push_char(&mut s, '=');
        assert(s@ =~= Seq::new((22 + k + 1) as nat, |j: int| '='));
        k = k + 1;
    }
    s
}

/// What to do with bytes read from the user's keyboard.
#[derive(Debug, Clone, Copy, PartialEq, Eq, Structural)]
pub enum StdinAction {
    /// Send them to the remote terminal.
    Forward,
    /// End the session.
    Stop,
}

/// The detach key: the two bytes of `œ` (Option+q on a Mac keyboard).
pub open spec fn detach_key() -> Seq<u8> {
    seq![197u8, 147u8]
}

/// Keyboard input is forwarded, except that end of input, or the detach key
/// read on its own, ends the session.
pub fn stdin_action(bytes: &[u8]) -> (r: StdinAction)
    ensures
        r == (if bytes@.len() == 0 || bytes@ == detach_key() {
            StdinAction::Stop
        } else {
            StdinAction::Forward
        }),
{
    if bytes.len() == 0 {
        return StdinAction::Stop;
    }
    if bytes.len() == 2 && bytes[0] == 197u8 && bytes[1] == 147u8 {
        assert(bytes@ =~= detach_key());
        return StdinAction::Stop;
    }
    if bytes.len() == 2 {
        assert(bytes@ != detach_key()) by {
            if bytes@ == detach_key() {
                assert(bytes@[0] == 197u8 && bytes@[1] == 147u8);
            }
        }
    }
    StdinAction::Forward
}

} // verus!
