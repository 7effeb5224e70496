//! The client: the servers that it knows, the requests that it makes for
//! them, and what it reads from their answers.

use vstd::prelude::*;
use crate::constant::{
    ATTACH, CREATE, DELETE, EMPTY_REQUEST, ERROR, IN, NO_MATCHING_TUPLE_FOUND, NO_PERMISSION,
    NO_TUPLE_SPACE_ATTACHED, OK, OUT, READ, REQUEST_DOESNT_EXIST, SPACE, TUPLE_IS_EMPTY,
    TUPLE_SPACE_NOT_FOUND,
};
use crate::lexing::{parse_text, tuples_of};
use crate::literal::{elements_text, tuple_text, tuples_text};
use crate::repository::{find, lemma_find};
use crate::server_client::{ServerClient, protocol_named};
use crate::server::address_text;
use crate::gather::values;
use crate::text::{chars_of, remove_blanks, same_text, string_of, texts, without_blanks};
use crate::tuple::{ElementValue, TupleData};

verus! {

/// The servers that a client knows, and the one that it is attached to.
pub struct Client {
    server_list: Vec<ServerClient>,
    server_attached: String,
}

/// The names of the servers.
pub open spec fn names_of(servers: Seq<ServerClient>) -> Seq<Seq<char>> {
    Seq::new(servers.len(), |i: int| servers[i].named())
}

/// The attributes, each followed by a space.
pub open spec fn spaced(attributes: Seq<Seq<char>>) -> Seq<char>
    decreases attributes.len(),
{
    if attributes.len() == 0 {
        Seq::empty()
    } else {
        spaced(attributes.drop_last()) + attributes.last() + SPACE@
    }
}

/// What follows the fixed words of a request: nothing where there is no
/// attribute, else a space and the attributes, each followed by a space.
pub open spec fn attribute_tail(attributes: Seq<Seq<char>>) -> Seq<char> {
    if attributes.len() == 0 {
        Seq::empty()
    } else {
        SPACE@ + spaced(attributes)
    }
}

/// The request that creates a space.
pub open spec fn create_request(
    admin: Seq<char>,
    space: Seq<char>,
    attributes: Seq<Seq<char>>,
) -> Seq<char> {
    CREATE@ + SPACE@ + admin + SPACE@ + space + attribute_tail(attributes)
}

/// The request that attaches to a space.
pub open spec fn attach_request(space: Seq<char>, attributes: Seq<Seq<char>>) -> Seq<char> {
    ATTACH@ + SPACE@ + space + attribute_tail(attributes)
}

/// The request that deletes a space.
pub open spec fn delete_request(attribute: Option<Seq<char>>, space: Seq<char>) -> Seq<char> {
    match attribute {
        Some(a) => DELETE@ + SPACE@ + a + SPACE@ + space,
        None => DELETE@ + SPACE@ + space,
    }
}

/// The request of a primitive: the verb, a space, and the literals of the
/// tuples.
pub open spec fn primitive_request(
    operation: Seq<char>,
    tuples: Seq<Seq<ElementValue>>,
) -> Seq<char> {
    operation + SPACE@ + tuples_text(tuples)
}

/// Whether `needle` stands somewhere in `text`.
pub open spec fn contains_text(text: Seq<char>, needle: Seq<char>) -> bool {
    exists|i: int|
        0 <= i <= text.len() - needle.len() && #[trigger] text.subrange(i, i + needle.len())
            == needle
}

/// The tuple that an answer holds: none where the answer tells of a
/// failure or of success; else the first tuple of the answer, read without
/// its white space.
pub open spec fn reply_value(response: Seq<char>) -> Seq<ElementValue> {
    if contains_text(response, ERROR@) || contains_text(response, OK@) {
        Seq::empty()
    } else if tuples_of(without_blanks(response)).len() > 0 {
        tuples_of(without_blanks(response))[0]
    } else {
        Seq::empty()
    }
}

/// A text that begins with the word for a failure holds it.
proof fn lemma_begins_with_error(text: Seq<char>)
    requires
        text.len() >= 5,
        text[0] == 'E',
        text[1] == 'R',
        text[2] == 'R',
        text[3] == 'O',
        text[4] == 'R',
    ensures
        contains_text(text, ERROR@),
        reply_value(text) == Seq::<ElementValue>::empty(),
{
    reveal_strlit("ERROR");
    assert(text.subrange(0int, 0int + ERROR@.len()) =~= ERROR@);
}

/// The client reads no tuple from an answer that tells of a failure or of
/// success: each refusal of the server holds the word for a failure, and the
/// answer to a request that was carried out is the word for success.
pub proof fn lemma_no_tuple_in_refusals()
    ensures
        reply_value(NO_PERMISSION@) == Seq::<ElementValue>::empty(),
        reply_value(NO_TUPLE_SPACE_ATTACHED@) == Seq::<ElementValue>::empty(),
        reply_value(TUPLE_SPACE_NOT_FOUND@) == Seq::<ElementValue>::empty(),
        reply_value(NO_MATCHING_TUPLE_FOUND@) == Seq::<ElementValue>::empty(),
        reply_value(TUPLE_IS_EMPTY@) == Seq::<ElementValue>::empty(),
        reply_value(REQUEST_DOESNT_EXIST@) == Seq::<ElementValue>::empty(),
        reply_value(EMPTY_REQUEST@) == Seq::<ElementValue>::empty(),
        reply_value(OK@) == Seq::<ElementValue>::empty(),
{
    reveal_strlit("ERROR - no permission");
    reveal_strlit("ERROR - no tuple space attached");
    reveal_strlit("ERROR - tuple space not found");
    reveal_strlit("ERROR - no matching tuple found");
    reveal_strlit("ERROR - tuple is empty");
    reveal_strlit("ERROR - request doesn't exist");
    reveal_strlit("ERROR - empty request");
    lemma_begins_with_error(NO_PERMISSION@);
    lemma_begins_with_error(NO_TUPLE_SPACE_ATTACHED@);
    lemma_begins_with_error(TUPLE_SPACE_NOT_FOUND@);
    lemma_begins_with_error(NO_MATCHING_TUPLE_FOUND@);
    lemma_begins_with_error(TUPLE_IS_EMPTY@);
    lemma_begins_with_error(REQUEST_DOESNT_EXIST@);
    lemma_begins_with_error(EMPTY_REQUEST@);
    assert(OK@.subrange(0int, 0int + OK@.len()) =~= OK@);
}

/// Whether `needle` stands at `at` in `text`.
fn stands_at(text: &Vec<char>, needle: &Vec<char>, at: usize) -> (b: bool)
    requires
        at + needle.len() <= text.len(),
    ensures
        b == (text@.subrange(at as int, at + needle@.len()) == needle@),
{
    let mut k: usize = 0;
    while k < needle.len()
        invariant
            k <= needle.len(),
            at + needle.len() <= text.len(),
            forall|j: int| 0 <= j < k ==> text@[at + j] == needle@[j],
        decreases needle.len() - k,
    {
        if text[at + k] != needle[k] {
            assert(text@.subrange(at as int, at + needle@.len())[k as int] != needle@[k as int]);
            return false;
        }
        k = k + 1;
    }
    assert(text@.subrange(at as int, at + needle@.len()) =~= needle@);
    true
}

/// Whether `needle` stands somewhere in `text`.
pub fn holds_text(text: &str, needle: &str) -> (b: bool)
    ensures
        b == contains_text(text@, needle@),
{
    let t = chars_of(text);
    let n = chars_of(needle);
    if n.len() > t.len() {
        return false;
    }
    let last: usize = t.len() - n.len();
    let mut i: usize = 0;
    loop
        invariant
            i <= last,
            last == t.len() - n.len(),
            n.len() <= t.len(),
            t@ == text@,
            n@ == needle@,
            forall|j: int| 0 <= j < i ==> #[trigger] t@.subrange(j, j + n@.len()) != n@,
        decreases last - i,
    {
        if stands_at(&t, &n, i) {
            return true;
        }
        if i == last {
            return false;
        }
        i = i + 1;
    }
}

/// Appends the attributes, each followed by a space.
fn append_spaced(line: &mut String, attributes: &Vec<String>)
    ensures
        final(line)@ == old(line)@ + spaced(texts(attributes@)),
{
    let ghost all = texts(attributes@);
    let mut i: usize = 0;
    assert(all.take(0) =~= Seq::<Seq<char>>::empty());
    assert(line@ =~= old(line)@ + spaced(all.take(0)));
    while i < attributes.len()
        invariant
            i <= attributes.len(),
            all == texts(attributes@),
            line@ == old(line)@ + spaced(all.take(i as int)),
        decreases attributes.len() - i,
    {
        line.append(attributes[i].as_str());
        line.append(SPACE);
        proof {
            assert(all.take(i + 1).drop_last() =~= all.take(i as int));
            assert(all.take(i + 1).last() == attributes@[i as int]@);
            assert(line@ =~= old(line)@ + spaced(all.take(i + 1)));
        }
        i = i + 1;
    }
    assert(all.take(i as int) =~= all);
}

/// Appends what follows the fixed words of a request.
fn append_tail(line: &mut String, attributes: &Vec<String>)
    ensures
        final(line)@ == old(line)@ + attribute_tail(texts(attributes@)),
{
    if attributes.len() > 0 {
        line.append(SPACE);
        append_spaced(line, attributes);
        assert(final(line)@ =~= old(line)@ + attribute_tail(texts(attributes@)));
    } else {
        assert(final(line)@ =~= old(line)@ + attribute_tail(texts(attributes@)));
    }
}

impl Client {
    /// Whether the client knows a server of this name.
    pub closed spec fn knows(&self, name: Seq<char>) -> bool {
        find(names_of(self.server_list@), name, 0) < self.server_list@.len()
    }

    /// The server of this name.
    pub closed spec fn entry(&self, name: Seq<char>) -> ServerClient {
        self.server_list@[find(names_of(self.server_list@), name, 0)]
    }

    /// The name of the server that the client is attached to.
    pub closed spec fn attached_to(&self) -> Seq<char> {
        self.server_attached@
    }

    /// A client that knows no server.
    pub fn new() -> (c: Client)
        ensures
            forall|name: Seq<char>| !c.knows(name),
            c.attached_to() == Seq::<char>::empty(),
    {
        Client { server_list: Vec::new(), server_attached: String::new() }
    }

    /// The position of the server of this name.
    fn index_of(&self, name: &str) -> (i: usize)
        ensures
            i == find(names_of(self.server_list@), name@, 0),
            i <= self.server_list@.len(),
    {
        let mut i: usize = 0;
        proof {
            lemma_find(names_of(self.server_list@), name@, 0);
        }
        while i < self.server_list.len()
            invariant
                i <= self.server_list.len(),
                find(names_of(self.server_list@), name@, 0) == find(
                    names_of(self.server_list@),
                    name@,
                    i as int,
                ),
            decreases self.server_list.len() - i,
        {
            if same_text(self.server_list[i].server_name(), name) {
                return i;
            }
            i = i + 1;
        }
        i
    }

    /// Makes a server known under a name. A server that was known under
    /// this name gives way.
    pub fn connect(
        &mut self,
        ip_address: String,
        port: String,
        protocol: String,
        server_name: &String,
        key: &str,
    )
        ensures
            final(self).knows(server_name@),
            final(self).entry(server_name@).located_at() == address_text(ip_address@, port@),
            final(self).entry(server_name@).transport() == protocol_named(protocol@),
            final(self).entry(server_name@).shared_key() == key@,
            final(self).attached_to() == old(self).attached_to(),
            forall|name: Seq<char>|
                name != server_name@ ==> final(self).knows(name) == old(self).knows(name),
            forall|name: Seq<char>|
                name != server_name@ && old(self).knows(name) ==> final(self).entry(name) == old(
                    self,
                ).entry(name),
    {
        let server = ServerClient::new(ip_address, port, protocol, server_name.clone(), key);
        let i = self.index_of(server_name.as_str());
        let ghost before = names_of(self.server_list@);
        proof {
            lemma_find(before, server_name@, 0);
        }
        if i < self.server_list.len() {
            self.server_list.set(i, server);
            proof {
                let after = names_of(final(self).server_list@);
                assert(after =~= before);
                assert forall|name: Seq<char>|
                    name != server_name@ && old(self).knows(name) implies final(self).entry(name)
                    == old(self).entry(name) by {
                    lemma_find(before, name, 0);
                }
            }
        } else {
            self.server_list.push(server);
            proof {
                let after = names_of(final(self).server_list@);
                assert(after =~= before.push(server_name@));
                assert forall|name: Seq<char>| #[trigger] find(after, name, 0) == (if name
                    == server_name@ {
                    before.len() as int
                } else if find(before, name, 0) < before.len() {
                    find(before, name, 0)
                } else {
                    after.len() as int
                }) by {
                    lemma_find(before, name, 0);
                    let at = if name == server_name@ {
                        before.len() as int
                    } else if find(before, name, 0) < before.len() {
                        find(before, name, 0)
                    } else {
                        after.len() as int
                    };
                    crate::repository::lemma_found_at(after, name, at);
                }
                assert forall|name: Seq<char>|
                    name != server_name@ && old(self).knows(name) implies final(self).entry(name)
                    == old(self).entry(name) by {
                    lemma_find(before, name, 0);
                    let k = find(after, name, 0);
                    assert(k == find(before, name, 0));
                    assert(final(self).server_list@[k] == old(self).server_list@[k]);
                }
            }
        }
    }

    /// The server of this name, if the client knows it.
    pub fn server(&self, name: &str) -> (s: Option<&ServerClient>)
        ensures
            match s {
                Some(found) => self.knows(name@) && *found == self.entry(name@),
                None => !self.knows(name@),
            },
    {
        let i = self.index_of(name);
        if i < self.server_list.len() {
            Some(&self.server_list[i])
        } else {
            None
        }
    }

    /// The name of the server that the client is attached to.
    pub fn server_attached(&self) -> (name: &str)
        ensures
            name@ == self.attached_to(),
    {
        self.server_attached.as_str()
    }

    /// The request that creates a space on a server, if the client knows
    /// the server.
    pub fn create(
        &self,
        server_name: &String,
        attributes: Vec<String>,
        tuple_space_name: &String,
        admin_attribute: &String,
    ) -> (request: Option<String>)
        ensures
            match request {
                Some(line) => self.knows(server_name@) && line@ == create_request(
                    admin_attribute@,
                    tuple_space_name@,
                    texts(attributes@),
                ),
                None => !self.knows(server_name@),
            },
    {
        if self.server(server_name.as_str()).is_none() {
            return None;
        }
        let mut line = CREATE.to_owned();
        line.append(SPACE);
        line.append(admin_attribute.as_str());
        line.append(SPACE);
        line.append(tuple_space_name.as_str());
        append_tail(&mut line, &attributes);
        Some(line)
    }

    /// Attaches the client to a server and gives the request that attaches
    /// to a space on it, if the client knows the server.
    pub fn attach(
        &mut self,
        server_name: &String,
        attributes: Vec<String>,
        tuple_space_name: &String,
    ) -> (request: Option<String>)
        ensures
            final(self).attached_to() == server_name@,
            forall|name: Seq<char>| final(self).knows(name) == old(self).knows(name),
            forall|name: Seq<char>| final(self).entry(name) == old(self).entry(name),
            match request {
                Some(line) => old(self).knows(server_name@) && line@ == attach_request(
                    tuple_space_name@,
                    texts(attributes@),
                ),
                None => !old(self).knows(server_name@),
            },
    {
        self.server_attached = server_name.clone();
        if self.server(server_name.as_str()).is_none() {
            return None;
        }
        let mut line = ATTACH.to_owned();
        line.append(SPACE);
        line.append(tuple_space_name.as_str());
        append_tail(&mut line, &attributes);
        Some(line)
    }

    /// The request that deletes a space on a server, if the client knows
    /// the server.
    pub fn delete(
        &self,
        server_name: String,
        delete_attribute: Option<String>,
        tuple_space_name: String,
    ) -> (request: Option<String>)
        ensures
            match request {
                Some(line) => self.knows(server_name@) && line@ == delete_request(
                    match delete_attribute {
                        Some(a) => Some(a@),
                        None => None,
                    },
                    tuple_space_name@,
                ),
                None => !self.knows(server_name@),
            },
    {
        if self.server(server_name.as_str()).is_none() {
            return None;
        }
        let mut line = DELETE.to_owned();
        line.append(SPACE);
        match &delete_attribute {
            Some(attribute) => {
                line.append(attribute.as_str());
                line.append(SPACE);
            },
            None => {},
        }
        line.append(tuple_space_name.as_str());
        Some(line)
    }

    /// The request of a primitive for the server that the client is
    /// attached to, if it knows this server.
    pub fn manage_primitives(&self, operation: &str, list_tuple: &Vec<TupleData>) -> (request:
        Option<String>)
        ensures
            match request {
                Some(line) => self.knows(self.attached_to()) && line@ == primitive_request(
                    operation@,
                    values(list_tuple@),
                ),
                None => !self.knows(self.attached_to()),
            },
    {
        if self.server(self.server_attached.as_str()).is_none() {
            return None;
        }
        let mut literals: Vec<char> = Vec::new();
        let ghost all = values(list_tuple@);
        let mut i: usize = 0;
        assert(all.take(0) =~= Seq::<Seq<ElementValue>>::empty());
        while i < list_tuple.len()
            invariant
                i <= list_tuple.len(),
                all == values(list_tuple@),
                literals@ == tuples_text(all.take(i as int)),
            decreases list_tuple.len() - i,
        {
            list_tuple[i].write(&mut literals);
            proof {
                assert(all.take(i + 1).drop_last() =~= all.take(i as int));
                assert(all.take(i + 1).last() == list_tuple@[i as int]@);
            }
            i = i + 1;
        }
        assert(all.take(i as int) =~= all);
        let mut line = operation.to_owned();
        line.append(SPACE);
        line.append(string_of(&literals).as_str());
        Some(line)
    }

    /// The request that takes tuples out of the attached space.
    pub fn in_instr(&self, list_tuple: Vec<TupleData>) -> (request: Option<String>)
        ensures
            match request {
                Some(line) => self.knows(self.attached_to()) && line@ == primitive_request(
                    IN@,
                    values(list_tuple@),
                ),
                None => !self.knows(self.attached_to()),
            },
    {
        self.manage_primitives(IN, &list_tuple)
    }

    /// The request that puts tuples into the attached space.
    pub fn out(&self, list_tuple: Vec<TupleData>) -> (request: Option<String>)
        ensures
            match request {
                Some(line) => self.knows(self.attached_to()) && line@ == primitive_request(
                    OUT@,
                    values(list_tuple@),
                ),
                None => !self.knows(self.attached_to()),
            },
    {
        self.manage_primitives(OUT, &list_tuple)
    }

    /// The request that looks for tuples in the attached space.
    pub fn read(&self, list_tuple: Vec<TupleData>) -> (request: Option<String>)
        ensures
            match request {
                Some(line) => self.knows(self.attached_to()) && line@ == primitive_request(
                    READ@,
                    values(list_tuple@),
                ),
                None => !self.knows(self.attached_to()),
            },
    {
        self.manage_primitives(READ, &list_tuple)
    }

    /// The tuple that an answer to a primitive holds.
    pub fn reply_tuple(response: &str) -> (t: TupleData)
        ensures
            t@ == reply_value(response@),
    {
        if holds_text(response, ERROR) || holds_text(response, OK) {
            return TupleData::empty();
        }
        let mut text = response.to_owned();
        Client::remove_whitespace(&mut text);
        let mut tuples = parse_text(text.as_str());
        if tuples.len() > 0 {
            tuples.swap_remove(0)
        } else {
            TupleData::empty()
        }
    }

    /// The request with the elements of the tuple after it, as they stand
    /// in a literal.
    pub fn format_tuple(tuple: &TupleData, request: String) -> (line: String)
        ensures
            line@ == request@ + elements_text(tuple@),
    {
        let mut whole: Vec<char> = Vec::new();
        tuple.write(&mut whole);
        let ghost text = tuple_text(tuple@);
        let mut inner: Vec<char> = Vec::new();
        let mut i: usize = 1;
        assert(whole@.len() == elements_text(tuple@).len() + 2);
        while i + 1 < whole.len()
            invariant
                1 <= i,
                i + 1 <= whole.len(),
                inner@ == whole@.subrange(1, i as int),
            decreases whole.len() - i,
        {
            inner.push(whole[i]);
            i = i + 1;
            assert(inner@ =~= whole@.subrange(1, i as int));
        }
        assert(inner@ =~= elements_text(tuple@));
        let mut line = request;
        line.append(string_of(&inner).as_str());
        line
    }

    /// Takes the white space out of a text.
    pub fn remove_whitespace(s: &mut String)
        ensures
            final(s)@ == without_blanks(old(s)@),
    {
        let cleaned = remove_blanks(s.as_str());
        *s = cleaned;
    }
}

} // verus!
