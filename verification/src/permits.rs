//! The permissions of a repository: who may create spaces and who may act on
//! a space, as records in the store with the number 0.

use vstd::prelude::*;
use crate::constant::{CREATE, DELETE, IN, OUT, PERMISSION, READ};
use crate::permission::{
    compare_attributes, create_query, create_record, create_template, create_tuple,
    lemma_grant_decides, lemma_query_plain, lemma_record_plain, list_of, permission_query,
    permission_record, permission_template, permission_tuple, record_permits,
};
use crate::quoting::quoted;
use crate::repository::Repository;
use crate::store::{
    found, lemma_found_sound, outside_at, put_result, take_result, tuple_matches,
};
use crate::text::{same_text, texts};
use crate::tuple::{ElementValue, TupleData};

verus! {

/// The records with one more: the attribute may perform the action on the
/// space.
pub open spec fn with_permission(
    records: Set<Seq<ElementValue>>,
    space: Seq<char>,
    action: Seq<char>,
    attribute: Seq<char>,
) -> Set<Seq<ElementValue>> {
    records.insert(permission_record(space, action, attribute))
}

/// The records after attributes were granted on a space: one attribute gets
/// all four actions; four attributes get one action each, in the order READ,
/// IN, OUT, DELETE; any other number of attributes grants nothing.
pub open spec fn with_permissions(
    records: Set<Seq<ElementValue>>,
    space: Seq<char>,
    attributes: Seq<Seq<char>>,
) -> Set<Seq<ElementValue>> {
    if attributes.len() == 1 {
        with_permission(
            with_permission(
                with_permission(
                    with_permission(records, space, DELETE@, attributes[0]),
                    space,
                    READ@,
                    attributes[0],
                ),
                space,
                IN@,
                attributes[0],
            ),
            space,
            OUT@,
            attributes[0],
        )
    } else if attributes.len() == 4 {
        with_permission(
            with_permission(
                with_permission(
                    with_permission(records, space, READ@, attributes[0]),
                    space,
                    IN@,
                    attributes[1],
                ),
                space,
                OUT@,
                attributes[2],
            ),
            space,
            DELETE@,
            attributes[3],
        )
    } else {
        records
    }
}

/// Whether the records let a caller that presents these attributes perform
/// the action: the record that the store finds for the action, on the space
/// where the action is not the creation of spaces, names one of the
/// attributes. Without a record, and without a space where one is needed, the
/// caller is not let in.
pub open spec fn permits(
    records: Set<Seq<ElementValue>>,
    action: Seq<char>,
    presented: Seq<Seq<char>>,
    space: Option<Seq<char>>,
) -> bool {
    if action == CREATE@ {
        record_permits(found(records, create_query()), 1, presented)
    } else {
        match space {
            Some(name) => record_permits(
                found(records, permission_query(name, action)),
                2,
                presented,
            ),
            None => false,
        }
    }
}

/// Whether the records hold a grant for a caller: a record that the template
/// for the action, on the space where the action is not the creation of
/// spaces, matches, and that names one of the attributes that the caller
/// presents.
pub open spec fn granted(
    records: Set<Seq<ElementValue>>,
    action: Seq<char>,
    presented: Seq<Seq<char>>,
    space: Option<Seq<char>>,
) -> bool {
    if action == CREATE@ {
        exists|record: Seq<ElementValue>|
            #[trigger] records.contains(record) && tuple_matches(create_query(), record)
                && record_permits(record, 1, presented)
    } else {
        match space {
            Some(name) => exists|record: Seq<ElementValue>|
                #[trigger] records.contains(record) && tuple_matches(
                    permission_query(name, action),
                    record,
                ) && record_permits(record, 2, presented),
            None => false,
        }
    }
}

/// Who is let in has a grant: a caller may perform an action only where a
/// record of the store, which the template for the action and the space
/// matches, names one of the attributes that the caller presents.
pub proof fn lemma_permitted_is_granted(
    records: Set<Seq<ElementValue>>,
    action: Seq<char>,
    presented: Seq<Seq<char>>,
    space: Option<Seq<char>>,
)
    requires
        permits(records, action, presented, space),
    ensures
        granted(records, action, presented, space),
{
    if action == CREATE@ {
        lemma_query_plain(action, action);
        lemma_found_sound(records, create_query());
        assert(records.contains(found(records, create_query())));
    } else {
        let name = space->Some_0;
        lemma_query_plain(name, action);
        lemma_found_sound(records, permission_query(name, action));
        assert(records.contains(found(records, permission_query(name, action))));
    }
}

/// A grant lets in no one else: where the records hold no grant for a
/// caller, and an attribute that the caller does not present is granted an
/// action on a space, the records still hold no grant for the caller. So a
/// caller that presents only other attributes stays out.
pub proof fn lemma_grant_lets_in_no_other(
    records: Set<Seq<ElementValue>>,
    space: Seq<char>,
    action: Seq<char>,
    attribute: Seq<char>,
    presented: Seq<Seq<char>>,
    asked: Seq<char>,
    on: Option<Seq<char>>,
)
    requires
        !presented.contains(attribute),
        !granted(records, asked, presented, on),
    ensures
        !granted(with_permission(records, space, action, attribute), asked, presented, on),
{
    let record = permission_record(space, action, attribute);
    lemma_grant_decides(space, action, attribute, presented);
    assert(!record_permits(record, 2, presented));
    assert(!record_permits(record, 1, presented)) by {
        assert(list_of(record[1]) =~= Seq::<ElementValue>::empty());
    }
}

/// Permission goes by the attributes that a caller presents: once an
/// attribute was granted an action on a space for which the records held no
/// grant, and where the store of the permissions finds a record for the
/// action and the space, it finds this grant, and a caller may perform the
/// action on the space if and only if the attribute is among those that it
/// presents. So a caller that presents the attribute and another is let in,
/// and a caller that presents only another is not.
pub proof fn lemma_granted_permits(
    records: Set<Seq<ElementValue>>,
    space: Seq<char>,
    action: Seq<char>,
    attribute: Seq<char>,
    presented: Seq<Seq<char>>,
)
    requires
        action != CREATE@,
        forall|record: Seq<ElementValue>| #[trigger]
            records.contains(record) ==> !tuple_matches(permission_query(space, action), record),
        found(
            with_permission(records, space, action, attribute),
            permission_query(space, action),
        ).len() > 0,
    ensures
        found(
            with_permission(records, space, action, attribute),
            permission_query(space, action),
        ) == permission_record(space, action, attribute),
        permits(with_permission(records, space, action, attribute), action, presented, Some(space))
            == presented.contains(attribute),
{
    lemma_query_plain(space, action);
    lemma_found_sound(
        with_permission(records, space, action, attribute),
        permission_query(space, action),
    );
    lemma_grant_decides(space, action, attribute, presented);
}

/// The repository right after it was made for an administrator.
pub open spec fn first_records(admin: Seq<char>) -> Set<Seq<ElementValue>> {
    with_permissions(
        Set::<Seq<ElementValue>>::empty().insert(create_record(admin)),
        PERMISSION@,
        seq![admin],
    )
}

impl Repository {
    /// A repository in which the administrator's attribute may create spaces
    /// and may do everything on the space of the permissions.
    pub fn new(admin_attribute: &str) -> (r: Repository)
        ensures
            r.wf(),
            r.directory() == Map::<Seq<char>, nat>::empty().insert(PERMISSION@, 0nat),
            r.contents() == seq![first_records(admin_attribute@)],
    {
        let mut r = Repository::empty();
        r.bind(PERMISSION, 0);
        let record = create_tuple(admin_attribute);
        proof {
            lemma_record_plain(PERMISSION@, CREATE@, admin_attribute@);
        }
        r.put(0, &record);
        let mut attributes: Vec<String> = Vec::new();
        attributes.push(admin_attribute.to_owned());
        assert(texts(attributes@) =~= seq![admin_attribute@]);
        r.add_permission_list(attributes, PERMISSION);
        assert(r.contents() =~= seq![first_records(admin_attribute@)]);
        r
    }

    /// Lets the attribute perform the action on the space.
    pub fn add_permission(&mut self, attribute: &String, action: &str, tuple_space_name: &str)
        requires
            old(self).wf(),
        ensures
            final(self).wf(),
            final(self).directory() == old(self).directory(),
            final(self).contents() == old(self).contents().update(
                0,
                with_permission(old(self).contents()[0], tuple_space_name@, action@, attribute@),
            ),
    {
        proof {
            self.lemma_directory_in_range();
            lemma_record_plain(tuple_space_name@, action@, attribute@);
        }
        let record = permission_tuple(tuple_space_name, action, attribute.as_str());
        self.put(0, &record);
    }

    /// Grants attributes on a space: one attribute gets all four actions,
    /// four attributes get READ, IN, OUT and DELETE in this order.
    pub fn add_permission_list(&mut self, attributes: Vec<String>, tuple_space_name: &str)
        requires
            old(self).wf(),
        ensures
            final(self).wf(),
            final(self).directory() == old(self).directory(),
            final(self).contents() == old(self).contents().update(
                0,
                with_permissions(old(self).contents()[0], tuple_space_name@, texts(attributes@)),
            ),
    {
        proof {
            self.lemma_directory_in_range();
        }
        if attributes.len() == 1 {
            self.add_permission(&attributes[0], DELETE, tuple_space_name);
            self.add_permission(&attributes[0], READ, tuple_space_name);
            self.add_permission(&attributes[0], IN, tuple_space_name);
            self.add_permission(&attributes[0], OUT, tuple_space_name);
        } else if attributes.len() == 4 {
            self.add_permission(&attributes[0], READ, tuple_space_name);
            self.add_permission(&attributes[1], IN, tuple_space_name);
            self.add_permission(&attributes[2], OUT, tuple_space_name);
            self.add_permission(&attributes[3], DELETE, tuple_space_name);
        }
        assert(final(self).contents() =~= old(self).contents().update(
            0,
            with_permissions(old(self).contents()[0], tuple_space_name@, texts(attributes@)),
        ));
    }

    /// Whether a caller that presents these attributes may perform the
    /// action, on the space where the action is not the creation of spaces.
    pub fn check_permission(
        &mut self,
        action: &str,
        attributes: &Vec<String>,
        tuple_space_name: Option<&str>,
    ) -> (allowed: bool)
        requires
            old(self).wf(),
        ensures
            final(self).wf(),
            final(self).directory() == old(self).directory(),
            final(self).contents() == old(self).contents(),
            allowed == permits(
                old(self).contents()[0],
                action@,
                texts(attributes@),
                match tuple_space_name {
                    Some(name) => Some(name@),
                    None => None,
                },
            ),
    {
        proof {
            self.lemma_directory_in_range();
        }
        if same_text(action, CREATE) {
            let template = create_template();
            match self.find_at(0, &template) {
                Some(record) => match outside_at(&record, 1) {
                    Some(list) => compare_attributes(&list, attributes),
                    None => false,
                },
                None => false,
            }
        } else {
            match tuple_space_name {
                Some(name) => {
                    let template = permission_template(name, action);
                    match self.find_at(0, &template) {
                        Some(record) => match outside_at(&record, 2) {
                            Some(list) => compare_attributes(&list, attributes),
                            None => false,
                        },
                        None => false,
                    }
                },
                None => false,
            }
        }
    }

    /// Opens a space with a store of its own and grants the attributes on
    /// it. A space of this name that was there gives way.
    pub fn add_tuple_space(&mut self, name: String, attributes: Vec<String>)
        requires
            old(self).wf(),
        ensures
            final(self).wf(),
            final(self).directory() == old(self).directory().insert(
                name@,
                old(self).contents().len(),
            ),
            final(self).contents() == old(self).contents().push(
                Set::<Seq<ElementValue>>::empty(),
            ).update(0, with_permissions(old(self).contents()[0], name@, texts(attributes@))),
    {
        proof {
            self.lemma_directory_in_range();
        }
        let handle = self.open_store();
        self.bind(name.as_str(), handle);
        self.add_permission_list(attributes, name.as_str());
    }

    /// Takes the space out of the directory.
    pub fn remove_tuple_space(&mut self, name: &str)
        requires
            old(self).wf(),
        ensures
            final(self).wf(),
            final(self).directory() == old(self).directory().remove(name@),
            final(self).contents() == old(self).contents(),
    {
        self.unbind(name);
    }

    /// Puts a tuple into a space, its strings in quotes. Nothing happens
    /// where the directory has no such space.
    pub fn add_tuple_to_tuple_space(&mut self, tuple_space: String, tuple: TupleData)
        requires
            old(self).wf(),
        ensures
            final(self).wf(),
            final(self).directory() == old(self).directory(),
            final(self).contents() == if old(self).directory().contains_key(tuple_space@) {
                old(self).contents().update(
                    old(self).directory()[tuple_space@] as int,
                    put_result(
                        old(self).contents()[old(self).directory()[tuple_space@] as int],
                        quoted(tuple@),
                    ),
                )
            } else {
                old(self).contents()
            },
    {
        match self.lookup(tuple_space.as_str()) {
            Some(handle) => {
                let formatted = tuple.format();
                self.put(handle, &formatted);
            },
            None => {},
        }
    }

    /// Takes a tuple that matches the template out of a space; the template
    /// is looked for as it is given. Nothing happens where the directory has
    /// no such space.
    pub fn remove_tuple_to_tuple_space(&mut self, tuple_space: String, tuple: TupleData)
        requires
            old(self).wf(),
        ensures
            final(self).wf(),
            final(self).directory() == old(self).directory(),
            final(self).contents() == if old(self).directory().contains_key(tuple_space@) {
                old(self).contents().update(
                    old(self).directory()[tuple_space@] as int,
                    take_result(
                        old(self).contents()[old(self).directory()[tuple_space@] as int],
                        tuple@,
                    ),
                )
            } else {
                old(self).contents()
            },
    {
        match self.lookup(tuple_space.as_str()) {
            Some(handle) => {
                self.take_at(handle, &tuple);
            },
            None => {},
        }
    }
}

} // verus!
