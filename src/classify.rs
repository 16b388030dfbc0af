use vstd::prelude::*;

use crate::error::ListError;
use crate::record::{FileObjectFilter, ObjectRecord};

verus! {

/// One decoded response to a listing request: its entries in the order the
/// store gave them, and the token that fetches the next page, if any.
#[derive(Debug)]
pub struct Page {
    pub entries: Vec<ObjectRecord>,
    pub next_token: Option<String>,
}

/// Whether a listing keeps an entry as a result: a virtual directory only when
/// no filter is set; any other entry when there is no filter or it matches.
pub open spec fn keeps(r: ObjectRecord, filter: Option<FileObjectFilter>) -> bool {
    if r.spec_is_directory() {
        filter is None
    } else {
        match filter {
            Some(f) => f.spec_matches(r),
            None => true,
        }
    }
}

/// The entries of `entries` that a listing keeps, in their order.
pub open spec fn accepted_of(entries: Seq<ObjectRecord>, filter: Option<FileObjectFilter>) -> Seq<
    ObjectRecord,
>
    decreases entries.len(),
{
    if entries.len() == 0 {
        Seq::empty()
    } else {
        let rest = accepted_of(entries.drop_last(), filter);
        if keeps(entries.last(), filter) {
            rest.push(entries.last())
        } else {
            rest
        }
    }
}

/// The names of the virtual directories among `entries`, in their order, when
/// the listing is recursive; none otherwise.
pub open spec fn directories_of(entries: Seq<ObjectRecord>, recursive: bool) -> Seq<String>
    decreases entries.len(),
{
    if entries.len() == 0 {
        Seq::empty()
    } else {
        let rest = directories_of(entries.drop_last(), recursive);
        if recursive && entries.last().spec_is_directory() {
            rest.push(entries.last().name)
        } else {
            rest
        }
    }
}

/// Pages of one prefix, read in request order, keep between them exactly the
/// entries that a single response holding all their entries would keep, in the
/// same order.
pub proof fn lemma_accepted_concat(
    first: Seq<ObjectRecord>,
    second: Seq<ObjectRecord>,
    filter: Option<FileObjectFilter>,
)
    ensures
        accepted_of(first + second, filter) == accepted_of(first, filter) + accepted_of(
            second,
            filter,
        ),
    decreases second.len(),
{
    if second.len() == 0 {
        assert(first + second =~= first);
        assert(accepted_of(first, filter) + accepted_of(second, filter) =~= accepted_of(
            first,
            filter,
        ));
    } else {
        assert((first + second).drop_last() =~= first + second.drop_last());
        assert((first + second).last() == second.last());
        lemma_accepted_concat(first, second.drop_last(), filter);
        assert(accepted_of(first + second, filter) =~= accepted_of(first, filter) + accepted_of(
            second,
            filter,
        ));
    }
}

/// Likewise, the virtual directories noted from consecutive pages are those a
/// single response holding all their entries would give, in the same order.
pub proof fn lemma_directories_concat(
    first: Seq<ObjectRecord>,
    second: Seq<ObjectRecord>,
    recursive: bool,
)
    ensures
        directories_of(first + second, recursive) == directories_of(first, recursive)
            + directories_of(second, recursive),
    decreases second.len(),
{
    if second.len() == 0 {
        assert(first + second =~= first);
        assert(directories_of(first, recursive) + directories_of(second, recursive)
            =~= directories_of(first, recursive));
    } else {
        assert((first + second).drop_last() =~= first + second.drop_last());
        assert((first + second).last() == second.last());
        lemma_directories_concat(first, second.drop_last(), recursive);
        assert(directories_of(first + second, recursive) =~= directories_of(first, recursive)
            + directories_of(second, recursive));
    }
}

/// Sorts one entry: a virtual directory is noted for descent when the listing
/// is recursive, and the entry joins the results when the listing keeps it.
pub fn process_file_object(
    file_object: ObjectRecord,
    recursive: bool,
    filter: &Option<FileObjectFilter>,
    virtual_directories: &mut Vec<String>,
    temp_file_objects: &mut Vec<ObjectRecord>,
)
    ensures
        final(temp_file_objects)@ == (if keeps(file_object, *filter) {
            old(temp_file_objects)@.push(file_object)
        } else {
            old(temp_file_objects)@
        }),
        final(virtual_directories)@ == (if recursive && file_object.spec_is_directory() {
            old(virtual_directories)@.push(file_object.name)
        } else {
            old(virtual_directories)@
        }),
{
    if file_object.is_directory() {
        if recursive {
            virtual_directories.push(file_object.name.clone());
        }
        if filter.is_none() {
            temp_file_objects.push(file_object);
        }
    } else {
        let keep = match filter {
            Some(f) => f.matches(&file_object),
            None => true,
        };
        if keep {
            temp_file_objects.push(file_object);
        }
    }
}

/// Sorts every entry of a page in order (see `process_file_object`).
pub fn classify_entries(
    entries: &Vec<ObjectRecord>,
    recursive: bool,
    filter: &Option<FileObjectFilter>,
    virtual_directories: &mut Vec<String>,
    temp_file_objects: &mut Vec<ObjectRecord>,
)
    ensures
        final(temp_file_objects)@ == old(temp_file_objects)@ + accepted_of(entries@, *filter),
        final(virtual_directories)@ == old(virtual_directories)@ + directories_of(
            entries@,
            recursive,
        ),
{
    let mut i: usize = 0;
    while i < entries.len()
        invariant
            i <= entries@.len(),
            temp_file_objects@ == old(temp_file_objects)@ + accepted_of(
                entries@.subrange(0, i as int),
                *filter,
            ),
            virtual_directories@ == old(virtual_directories)@ + directories_of(
                entries@.subrange(0, i as int),
                recursive,
            ),
        decreases entries.len() - i,
    {
        let ghost before = entries@.subrange(0, i as int);
        let ghost after = entries@.subrange(0, i + 1);
        assert(after.drop_last() =~= before);
        assert(after.last() == entries@[i as int]);
        process_file_object(
            entries[i].clone(),
            recursive,
            filter,
            virtual_directories,
            temp_file_objects,
        );
        assert(temp_file_objects@ =~= old(temp_file_objects)@ + accepted_of(after, *filter));
        assert(virtual_directories@ =~= old(virtual_directories)@ + directories_of(
            after,
            recursive,
        ));
        i = i + 1;
    }
    assert(entries@.subrange(0, entries@.len() as int) =~= entries@);
}

/// Reads one response. An empty body is an exhausted prefix: nothing is added
/// and there is no next token. Otherwise `parsed`, what the listing parser made
/// of the body, decides: a parse failure is an error and adds nothing; a page
/// has its entries sorted in order and its next token returned.
pub fn process_response_body(
    response_body: &str,
    parsed: Result<Page, String>,
    recursive: bool,
    filter: &Option<FileObjectFilter>,
    temp_file_objects: &mut Vec<ObjectRecord>,
    virtual_directories: &mut Vec<String>,
) -> (r: Result<Option<String>, ListError>)
    ensures
        response_body@.len() == 0 ==> r == Ok::<Option<String>, ListError>(None)
            && final(temp_file_objects)@ == old(temp_file_objects)@
            && final(virtual_directories)@ == old(virtual_directories)@,
        response_body@.len() > 0 ==> match parsed {
            Err(msg) => r == Err::<Option<String>, ListError>(ListError::Parse(msg))
                && final(temp_file_objects)@ == old(temp_file_objects)@
                && final(virtual_directories)@ == old(virtual_directories)@,
            Ok(page) => r == Ok::<Option<String>, ListError>(page.next_token)
                && final(temp_file_objects)@ == old(temp_file_objects)@ + accepted_of(
                page.entries@,
                *filter,
            ) && final(virtual_directories)@ == old(virtual_directories)@ + directories_of(
                page.entries@,
                recursive,
            ),
        },
{
    if response_body.is_empty() {
        return Ok(None);
    }
    match parsed {
        Err(msg) => Err(ListError::Parse(msg)),
        Ok(page) => {
            classify_entries(&page.entries, recursive, filter, virtual_directories, temp_file_objects);
            Ok(page.next_token)
        },
    }
}

} // verus!
