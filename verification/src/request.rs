//! The dispatcher: what a request does to a repository and what it is
//! answered.
//!
//! A request is a line of words. The first word is the verb:
//! `CREATE admin space [attribute ...]`, `DELETE attribute space`,
//! `ATTACH space [attribute ...]`, and `OUT`, `IN`, `READ` with tuple literals.

use vstd::prelude::*;
use vstd::string::StringSliceAdditionalSpecFns;
use crate::constant::{
    ATTACH, CREATE, DELETE, EMPTY_REQUEST, IN, NO_PERMISSION, NO_TUPLE_SPACE_ATTACHED, OUT, READ,
    REQUEST_DOESNT_EXIST, TUPLE_SPACE_NOT_FOUND,
};
use crate::envelope::{decrypt_text, opened_text};
use crate::gather::{
    Gathered, data_of, failure_of, out_all, reason_of, state_after, texts_of, values,
};
use crate::lexing::{parse_text, tuples_of};
use crate::permission::{lemma_grant_decides, lemma_query_matches_record, permission_record};
use crate::permits::{granted, lemma_permitted_is_granted, permits, with_permissions};
use crate::repository::Repository;
use crate::text::{
    chars_of, join_words, joined_from, same_text, split_words, strings_from, strip_quotes, texts,
    without_quotes, words_of,
};
use crate::tuple::ElementValue;
use crate::tuple_space::TupleSpace;

verus! {

/// The answer to a request.
pub enum RequestResponse {
    /// The connection is attached to a space.
    SpaceResponse(TupleSpace),
    /// The tuples that were found.
    DataResponse(String),
    /// The request was carried out.
    OkResponse(),
    /// The request was refused, with the reason.
    NoResponse(String),
}

/// The value of an answer.
pub enum Reply {
    Space { store: nat, name: Seq<char>, attributes: Seq<Seq<char>> },
    Data(Seq<char>),
    Done,
    Refused(Seq<char>),
}

/// The value of an attachment.
pub struct Session {
    pub store: nat,
    pub name: Seq<char>,
    pub presented: Seq<Seq<char>>,
}

/// What a request leaves: the answer, the directory and the tuples of the
/// stores.
pub struct Outcome {
    pub reply: Reply,
    pub directory: Map<Seq<char>, nat>,
    pub contents: Seq<Set<Seq<ElementValue>>>,
}

impl View for RequestResponse {
    type V = Reply;

    open spec fn view(&self) -> Reply {
        match self {
            RequestResponse::SpaceResponse(s) => Reply::Space {
                store: s.store(),
                name: s.name(),
                attributes: s.presented(),
            },
            RequestResponse::DataResponse(text) => Reply::Data(text@),
            RequestResponse::OkResponse() => Reply::Done,
            RequestResponse::NoResponse(reason) => Reply::Refused(reason@),
        }
    }
}

/// The value of the attachment of a connection, if it has one.
pub open spec fn session_of(session: Option<&TupleSpace>) -> Option<Session> {
    match session {
        Some(s) => Some(Session { store: s.store(), name: s.name(), presented: s.presented() }),
        None => None,
    }
}

/// A refusal, which changes nothing.
pub open spec fn refused(
    directory: Map<Seq<char>, nat>,
    contents: Seq<Set<Seq<ElementValue>>>,
    reason: Seq<char>,
) -> Outcome {
    Outcome { reply: Reply::Refused(reason), directory, contents }
}

/// CREATE: where the first attribute of the caller, without its quotes, may
/// create spaces, a space with a store of its own enters the directory and
/// the attributes are granted on it.
pub open spec fn create_outcome(
    directory: Map<Seq<char>, nat>,
    contents: Seq<Set<Seq<ElementValue>>>,
    words: Seq<Seq<char>>,
) -> Outcome {
    if words.len() < 3 {
        refused(directory, contents, REQUEST_DOESNT_EXIST@)
    } else if permits(contents[0], CREATE@, seq![without_quotes(words[1])], None) {
        Outcome {
            reply: Reply::Done,
            directory: directory.insert(words[2], contents.len()),
            contents: contents.push(Set::<Seq<ElementValue>>::empty()).update(
                0,
                with_permissions(contents[0], words[2], words.subrange(3, words.len() as int)),
            ),
        }
    } else {
        refused(directory, contents, NO_PERMISSION@)
    }
}

/// DELETE: where the attribute may delete the space, the space leaves the
/// directory.
pub open spec fn delete_outcome(
    directory: Map<Seq<char>, nat>,
    contents: Seq<Set<Seq<ElementValue>>>,
    words: Seq<Seq<char>>,
) -> Outcome {
    if words.len() < 3 {
        refused(directory, contents, REQUEST_DOESNT_EXIST@)
    } else if permits(contents[0], DELETE@, seq![words[1]], Some(words[2])) {
        Outcome { reply: Reply::Done, directory: directory.remove(words[2]), contents }
    } else {
        refused(directory, contents, NO_PERMISSION@)
    }
}

/// ATTACH: where the directory has the space, the connection is attached to
/// it with the attributes that it names.
pub open spec fn attach_outcome(
    directory: Map<Seq<char>, nat>,
    contents: Seq<Set<Seq<ElementValue>>>,
    words: Seq<Seq<char>>,
) -> Outcome {
    if words.len() < 2 {
        refused(directory, contents, REQUEST_DOESNT_EXIST@)
    } else if directory.contains_key(words[1]) {
        Outcome {
            reply: Reply::Space {
                store: directory[words[1]],
                name: words[1],
                attributes: words.subrange(2, words.len() as int),
            },
            directory,
            contents,
        }
    } else {
        refused(directory, contents, TUPLE_SPACE_NOT_FOUND@)
    }
}

/// The tuples that a request names: those of the text after the verb.
pub open spec fn templates_of(words: Seq<Seq<char>>) -> Seq<Seq<ElementValue>> {
    tuples_of(joined_from(words, 1))
}

/// OUT, READ and IN: a connection that is attached to a space and may
/// perform the action on it has its tuples put into the space, or its
/// templates served from it.
pub open spec fn primitive_outcome(
    directory: Map<Seq<char>, nat>,
    contents: Seq<Set<Seq<ElementValue>>>,
    words: Seq<Seq<char>>,
    session: Option<Session>,
) -> Outcome {
    match session {
        None => refused(directory, contents, NO_TUPLE_SPACE_ATTACHED@),
        Some(s) => {
            if s.store >= contents.len() {
                refused(directory, contents, NO_TUPLE_SPACE_ATTACHED@)
            } else if !permits(contents[0], words[0], s.presented, Some(s.name)) {
                refused(directory, contents, NO_PERMISSION@)
            } else if words[0] == OUT@ {
                Outcome {
                    reply: Reply::Done,
                    directory,
                    contents: contents.update(
                        s.store as int,
                        out_all(contents[s.store as int], templates_of(words)),
                    ),
                }
            } else {
                let destructive = words[0] == IN@;
                let texts = texts_of(contents[s.store as int], templates_of(words), destructive);
                Outcome {
                    reply: if texts.len() > 0 {
                        Reply::Data(data_of(texts))
                    } else {
                        Reply::Refused(
                            reason_of(
                                failure_of(
                                    contents[s.store as int],
                                    templates_of(words),
                                    destructive,
                                ),
                            ),
                        )
                    },
                    directory,
                    contents: contents.update(
                        s.store as int,
                        state_after(contents[s.store as int], templates_of(words), destructive),
                    ),
                }
            }
        },
    }
}

/// What a request does and is answered, by its verb.
pub open spec fn dispatch_outcome(
    directory: Map<Seq<char>, nat>,
    contents: Seq<Set<Seq<ElementValue>>>,
    words: Seq<Seq<char>>,
    session: Option<Session>,
) -> Outcome {
    if words.len() == 0 {
        refused(directory, contents, EMPTY_REQUEST@)
    } else if words[0] == CREATE@ {
        create_outcome(directory, contents, words)
    } else if words[0] == DELETE@ {
        delete_outcome(directory, contents, words)
    } else if words[0] == ATTACH@ {
        attach_outcome(directory, contents, words)
    } else if words[0] == OUT@ || words[0] == READ@ || words[0] == IN@ {
        primitive_outcome(directory, contents, words, session)
    } else {
        refused(directory, contents, REQUEST_DOESNT_EXIST@)
    }
}

impl Repository {
    /// What the repository and an answer make together.
    pub open spec fn outcome(&self, reply: RequestResponse) -> Outcome {
        Outcome { reply: reply@, directory: self.directory(), contents: self.contents() }
    }

    /// Carries out CREATE.
    fn create(&mut self, words: &Vec<String>) -> (r: RequestResponse)
        requires
            old(self).wf(),
        ensures
            final(self).wf(),
            final(self).outcome(r) == create_outcome(
                old(self).directory(),
                old(self).contents(),
                texts(words@),
            ),
    {
        proof {
            self.lemma_directory_in_range();
        }
        if words.len() < 3 {
            return RequestResponse::NoResponse(REQUEST_DOESNT_EXIST.to_owned());
        }
        let mut caller: Vec<String> = Vec::new();
        caller.push(strip_quotes(words[1].as_str()));
        assert(texts(caller@) =~= seq![without_quotes(texts(words@)[1])]);
        if self.check_permission(CREATE, &caller, None) {
            let attributes = strings_from(words, 3);
            self.add_tuple_space(words[2].clone(), attributes);
            RequestResponse::OkResponse()
        } else {
            RequestResponse::NoResponse(NO_PERMISSION.to_owned())
        }
    }

    /// Carries out DELETE.
    fn delete(&mut self, words: &Vec<String>) -> (r: RequestResponse)
        requires
            old(self).wf(),
        ensures
            final(self).wf(),
            final(self).outcome(r) == delete_outcome(
                old(self).directory(),
                old(self).contents(),
                texts(words@),
            ),
    {
        if words.len() < 3 {
            return RequestResponse::NoResponse(REQUEST_DOESNT_EXIST.to_owned());
        }
        let mut caller: Vec<String> = Vec::new();
        caller.push(words[1].clone());
        assert(texts(caller@) =~= seq![texts(words@)[1]]);
        if self.check_permission(DELETE, &caller, Some(words[2].as_str())) {
            self.remove_tuple_space(words[2].as_str());
            RequestResponse::OkResponse()
        } else {
            RequestResponse::NoResponse(NO_PERMISSION.to_owned())
        }
    }

    /// Carries out ATTACH.
    fn attach(&self, words: &Vec<String>) -> (r: RequestResponse)
        requires
            self.wf(),
        ensures
            self.outcome(r) == attach_outcome(self.directory(), self.contents(), texts(words@)),
    {
        if words.len() < 2 {
            return RequestResponse::NoResponse(REQUEST_DOESNT_EXIST.to_owned());
        }
        match self.lookup(words[1].as_str()) {
            Some(handle) => {
                let attributes = strings_from(words, 2);
                RequestResponse::SpaceResponse(
                    TupleSpace::new(handle, attributes, words[1].as_str()),
                )
            },
            None => RequestResponse::NoResponse(TUPLE_SPACE_NOT_FOUND.to_owned()),
        }
    }

    /// Carries out OUT, READ or IN.
    fn primitive(&mut self, words: &Vec<String>, session: Option<&TupleSpace>) -> (r:
        RequestResponse)
        requires
            old(self).wf(),
            words@.len() > 0,
            words@[0]@ == OUT@ || words@[0]@ == READ@ || words@[0]@ == IN@,
        ensures
            final(self).wf(),
            final(self).outcome(r) == primitive_outcome(
                old(self).directory(),
                old(self).contents(),
                texts(words@),
                session_of(session),
            ),
    {
        proof {
            self.lemma_directory_in_range();
        }
        let attached = match session {
            None => {
                return RequestResponse::NoResponse(NO_TUPLE_SPACE_ATTACHED.to_owned());
            },
            Some(s) => s,
        };
        let handle = attached.tuple_space();
        if handle >= self.stores_len() {
            return RequestResponse::NoResponse(NO_TUPLE_SPACE_ATTACHED.to_owned());
        }
        let verb = words[0].as_str();
        if !self.check_permission(verb, attached.attributes(), Some(attached.tuple_space_name())) {
            return RequestResponse::NoResponse(NO_PERMISSION.to_owned());
        }
        let payload = join_words(words, 1);
        let tuples = parse_text(payload.as_str());
        proof {
            assert(values(tuples@) =~= templates_of(texts(words@)));
        }
        if same_text(verb, OUT) {
            self.out_tuples(handle, &tuples);
            RequestResponse::OkResponse()
        } else {
            let destructive = same_text(verb, IN);
            match self.gather(handle, &tuples, destructive) {
                Gathered::Data(text) => RequestResponse::DataResponse(text),
                Gathered::Nothing(reason) => RequestResponse::NoResponse(reason),
            }
        }
    }

    /// Carries out the request that the words make.
    pub fn dispatch(&mut self, words: &Vec<String>, session: Option<&TupleSpace>) -> (r:
        RequestResponse)
        requires
            old(self).wf(),
        ensures
            final(self).wf(),
            final(self).outcome(r) == dispatch_outcome(
                old(self).directory(),
                old(self).contents(),
                texts(words@),
                session_of(session),
            ),
    {
        if words.len() == 0 {
            return RequestResponse::NoResponse(EMPTY_REQUEST.to_owned());
        }
        let verb = words[0].as_str();
        if same_text(verb, CREATE) {
            self.create(words)
        } else if same_text(verb, DELETE) {
            self.delete(words)
        } else if same_text(verb, ATTACH) {
            self.attach(words)
        } else if same_text(verb, OUT) || same_text(verb, READ) || same_text(verb, IN) {
            self.primitive(words, session)
        } else {
            RequestResponse::NoResponse(REQUEST_DOESNT_EXIST.to_owned())
        }
    }

    /// Opens a sealed request and carries it out. A request that cannot be
    /// opened, or that is no text, is not carried out and gets no answer.
    pub fn manage_request(
        &mut self,
        request: &[u8],
        client_option: Option<&TupleSpace>,
        key: &str,
    ) -> (r: Option<RequestResponse>)
        requires
            old(self).wf(),
        ensures
            final(self).wf(),
            match opened_text(key.spec_bytes(), request@) {
                None => r is None && final(self).directory() == old(self).directory()
                    && final(self).contents() == old(self).contents(),
                Some(text) => r matches Some(reply) && final(self).outcome(reply)
                    == dispatch_outcome(
                    old(self).directory(),
                    old(self).contents(),
                    words_of(text),
                    session_of(client_option),
                ),
            },
    {
        match decrypt_text(key, request) {
            None => None,
            Some(text) => {
                let chars = chars_of(text.as_str());
                let words = split_words(&chars);
                Some(self.dispatch(&words, client_option))
            },
        }
    }
}

/// The permission that a request needs: the action, the attributes that the
/// caller presents, and the space where the action is not the creation of
/// spaces. A request that is answered without a look at the permissions needs
/// none.
pub open spec fn permission_asked(
    stores: nat,
    words: Seq<Seq<char>>,
    session: Option<Session>,
) -> Option<(Seq<char>, Seq<Seq<char>>, Option<Seq<char>>)> {
    if words.len() == 0 {
        None
    } else if words[0] == CREATE@ {
        if words.len() < 3 {
            None
        } else {
            Some((CREATE@, seq![without_quotes(words[1])], None))
        }
    } else if words[0] == DELETE@ {
        if words.len() < 3 {
            None
        } else {
            Some((DELETE@, seq![words[1]], Some(words[2])))
        }
    } else if words[0] == OUT@ || words[0] == READ@ || words[0] == IN@ {
        match session {
            Some(s) => if s.store < stores {
                Some((words[0], s.presented, Some(s.name)))
            } else {
                None
            },
            None => None,
        }
    } else {
        None
    }
}

/// No action without a grant: a request that needs a permission is refused
/// for want of it, and then changes nothing, unless a record of the store of
/// the permissions, which the template for the action and the space matches,
/// names one of the attributes that the caller presents.
pub proof fn lemma_no_action_without_grant(
    directory: Map<Seq<char>, nat>,
    contents: Seq<Set<Seq<ElementValue>>>,
    words: Seq<Seq<char>>,
    session: Option<Session>,
)
    requires
        contents.len() >= 1,
    ensures
        match permission_asked(contents.len(), words, session) {
            Some((action, presented, space)) => granted(contents[0], action, presented, space)
                || dispatch_outcome(directory, contents, words, session) == refused(
                directory,
                contents,
                NO_PERMISSION@,
            ),
            None => true,
        },
{
    lemma_verbs_differ();
    match permission_asked(contents.len(), words, session) {
        Some((action, presented, space)) => {
            if permits(contents[0], action, presented, space) {
                lemma_permitted_is_granted(contents[0], action, presented, space);
            }
        },
        None => {},
    }
}

/// Serving templates without taking leaves the tuples as they are.
pub proof fn lemma_reading_keeps(tuples: Set<Seq<ElementValue>>, ts: Seq<Seq<ElementValue>>)
    ensures
        state_after(tuples, ts, false) == tuples,
    decreases ts.len(),
{
    if ts.len() > 0 {
        lemma_reading_keeps(tuples, ts.drop_last());
    }
}

/// The verbs are six different words.
pub proof fn lemma_verbs_differ()
    ensures
        CREATE@ != DELETE@,
        CREATE@ != ATTACH@,
        CREATE@ != OUT@,
        CREATE@ != READ@,
        CREATE@ != IN@,
        DELETE@ != ATTACH@,
        DELETE@ != OUT@,
        DELETE@ != READ@,
        DELETE@ != IN@,
        ATTACH@ != OUT@,
        ATTACH@ != READ@,
        ATTACH@ != IN@,
        OUT@ != READ@,
        OUT@ != IN@,
        READ@ != IN@,
{
    reveal_strlit("CREATE");
    reveal_strlit("DELETE");
    reveal_strlit("ATTACH");
    reveal_strlit("OUT");
    reveal_strlit("READ");
    reveal_strlit("IN");
    assert(CREATE@[0] == 'C');
    assert(DELETE@[0] == 'D');
    assert(ATTACH@[0] == 'A');
    assert(OUT@[0] == 'O');
    assert(READ@[0] == 'R');
    assert(IN@[0] == 'I');
}

/// READ never removes: a READ leaves the directory and every store as they
/// were, so that the same READ, asked again right away, is answered the
/// same.
pub proof fn lemma_read_changes_nothing(
    directory: Map<Seq<char>, nat>,
    contents: Seq<Set<Seq<ElementValue>>>,
    words: Seq<Seq<char>>,
    session: Option<Session>,
)
    requires
        words.len() > 0,
        words[0] == READ@,
    ensures
        dispatch_outcome(directory, contents, words, session).directory == directory,
        dispatch_outcome(directory, contents, words, session).contents == contents,
        dispatch_outcome(
            dispatch_outcome(directory, contents, words, session).directory,
            dispatch_outcome(directory, contents, words, session).contents,
            words,
            session,
        ) == dispatch_outcome(directory, contents, words, session),
{
    lemma_verbs_differ();
    match session {
        Some(s) => {
            if s.store < contents.len() {
                lemma_reading_keeps(contents[s.store as int], templates_of(words));
                assert(contents.update(s.store as int, contents[s.store as int]) =~= contents);
            }
        },
        None => {},
    }
}

/// CREATE with one attribute grants READ, IN, OUT and DELETE on the new
/// space to this attribute: where the caller may create spaces, the request
/// is carried out, the space enters the directory with a store of its own, and
/// the store of the permissions holds, beside what it held, the four records
/// for the attribute, each of them a grant for a caller that presents the
/// attribute.
pub proof fn lemma_create_grants_all(
    directory: Map<Seq<char>, nat>,
    contents: Seq<Set<Seq<ElementValue>>>,
    words: Seq<Seq<char>>,
    session: Option<Session>,
)
    requires
        contents.len() >= 1,
        words.len() == 4,
        words[0] == CREATE@,
        permits(contents[0], CREATE@, seq![without_quotes(words[1])], None),
    ensures
        ({
            let after = dispatch_outcome(directory, contents, words, session);
            let records = after.contents[0];
            &&& after.reply == Reply::Done
            &&& after.directory == directory.insert(words[2], contents.len())
            &&& after.contents.len() == contents.len() + 1
            &&& after.contents[contents.len() as int] == Set::<Seq<ElementValue>>::empty()
            &&& contents[0].subset_of(records)
            &&& records.contains(permission_record(words[2], READ@, words[3]))
            &&& records.contains(permission_record(words[2], IN@, words[3]))
            &&& records.contains(permission_record(words[2], OUT@, words[3]))
            &&& records.contains(permission_record(words[2], DELETE@, words[3]))
            &&& granted(records, READ@, seq![words[3]], Some(words[2]))
            &&& granted(records, IN@, seq![words[3]], Some(words[2]))
            &&& granted(records, OUT@, seq![words[3]], Some(words[2]))
            &&& granted(records, DELETE@, seq![words[3]], Some(words[2]))
        }),
{
    let space = words[2];
    let attribute = words[3];
    let presented = seq![attribute];
    let attributes = words.subrange(3, words.len() as int);
    assert(attributes.len() == 1);
    assert(attributes[0] == attribute);
    lemma_verbs_differ();
    assert(presented.contains(attribute)) by {
        assert(presented[0] == attribute);
    }
    let records = dispatch_outcome(directory, contents, words, session).contents[0];
    lemma_query_matches_record(space, READ@, space, READ@, attribute);
    lemma_grant_decides(space, READ@, attribute, presented);
    assert(records.contains(permission_record(space, READ@, attribute)));
    lemma_query_matches_record(space, IN@, space, IN@, attribute);
    lemma_grant_decides(space, IN@, attribute, presented);
    assert(records.contains(permission_record(space, IN@, attribute)));
    lemma_query_matches_record(space, OUT@, space, OUT@, attribute);
    lemma_grant_decides(space, OUT@, attribute, presented);
    assert(records.contains(permission_record(space, OUT@, attribute)));
    lemma_query_matches_record(space, DELETE@, space, DELETE@, attribute);
    lemma_grant_decides(space, DELETE@, attribute, presented);
    assert(records.contains(permission_record(space, DELETE@, attribute)));
}

/// ATTACH to a space that the directory does not have is refused, and
/// nothing changes.
pub proof fn lemma_attach_unknown(
    directory: Map<Seq<char>, nat>,
    contents: Seq<Set<Seq<ElementValue>>>,
    words: Seq<Seq<char>>,
    session: Option<Session>,
)
    requires
        words.len() >= 2,
        words[0] == ATTACH@,
        !directory.contains_key(words[1]),
    ensures
        dispatch_outcome(directory, contents, words, session) == refused(
            directory,
            contents,
            TUPLE_SPACE_NOT_FOUND@,
        ),
{
    lemma_verbs_differ();
}

/// ATTACH to a space of the directory attaches to its store, whatever the
/// connection was attached to before.
pub proof fn lemma_attach_known(
    directory: Map<Seq<char>, nat>,
    contents: Seq<Set<Seq<ElementValue>>>,
    words: Seq<Seq<char>>,
    session: Option<Session>,
)
    requires
        words.len() >= 2,
        words[0] == ATTACH@,
        directory.contains_key(words[1]),
    ensures
        dispatch_outcome(directory, contents, words, session).reply == (Reply::Space {
            store: directory[words[1]],
            name: words[1],
            attributes: words.subrange(2, words.len() as int),
        }),
        dispatch_outcome(directory, contents, words, session).directory == directory,
        dispatch_outcome(directory, contents, words, session).contents == contents,
{
    lemma_verbs_differ();
}

} // verus!
