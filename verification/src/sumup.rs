//! Operations of the client on several variables at once: handles for a list
//! of names, and reads and writes bundled into one request.
use crate::client::as_read_write;
use crate::client::Client;
use crate::client::ClientView;
use crate::client::exchanged;
use crate::client::expect_read_write;
use crate::client::handle_requested;
use crate::client::handle_resolved;
use crate::codec::decode_sumup_read;
use crate::codec::decode_sumup_write;
use crate::codec::encode_sumup_read;
use crate::codec::encode_sumup_write;
use crate::codec::le32_at;
use crate::codec::read_records;
use crate::codec::sumup_read_answer;
use crate::codec::sumup_read_layout;
use crate::codec::sumup_read_layout_ok;
use crate::codec::write_bodies;
use crate::codec::write_records;
use crate::error::ClientError;
use crate::error::ClientResult;
use crate::error::ERR_NO_ERROR;
use crate::proto::ReadRequest;
use crate::proto::ReadResponse;
use crate::proto::Request;
use crate::proto::Response;
use crate::proto::WriteRequest;
use crate::proto::WriteResponse;
use crate::request_factory::ADSIGRP_SUMUP_READEX;
use crate::request_factory::ADSIGRP_SUMUP_WRITE;
use crate::request_factory::get_read_request;
use crate::request_factory::get_sumup_read_request;
use crate::request_factory::get_sumup_write_request;
use crate::request_factory::get_write_request;
use crate::request_factory::READ_WRITE_SYMVAL_BY_HANDLE;
use vstd::prelude::*;

verus! {

/// A result with the handles as a sequence.
pub open spec fn handles_of(result: ClientResult<Vec<u32>>) -> Result<Seq<u32>, ClientError> {
    match result {
        Ok(handles) => Ok(handles@),
        Err(e) => Err(e),
    }
}

/// The characters of each name.
pub open spec fn names_of(names: Seq<String>) -> Seq<Seq<char>> {
    Seq::new(names.len(), |i: int| names[i]@)
}

/// The handle of one variable: looked up in the cache first where
/// `use_cache` says so, else asked from the controller in any case.
pub open spec fn handle_fetched<L: Fn(u32, Vec<u8>) -> ClientResult<Response>>(
    link: &L,
    use_cache: bool,
    pre: ClientView,
    var_name: Seq<char>,
    post: ClientView,
    handle: ClientResult<u32>,
) -> bool {
    if use_cache {
        handle_resolved(link, pre, var_name, post, handle)
    } else {
        handle_requested(link, pre, var_name, post, handle)
    }
}

/// A run of handle fetches for the first names of `names`, one after the
/// other: `states` are the states of the client before, between and after
/// them, `results` are their results. Only the last fetch may have failed.
pub open spec fn fetches_run<L: Fn(u32, Vec<u8>) -> ClientResult<Response>>(
    link: &L,
    use_cache: bool,
    pre: ClientView,
    names: Seq<Seq<char>>,
    states: Seq<ClientView>,
    results: Seq<ClientResult<u32>>,
) -> bool {
    &&& results.len() <= names.len()
    &&& states.len() == results.len() + 1
    &&& states[0] == pre
    &&& forall|j: int|
        #![trigger results[j]]
        0 <= j < results.len() ==> handle_fetched(
            link,
            use_cache,
            states[j],
            names[j],
            states[j + 1],
            results[j],
        )
    &&& forall|j: int| 0 <= j < results.len() - 1 ==> (#[trigger] results[j]) is Ok
}

/// The handles of all of `names`, fetched in their order: the first fetch
/// that fails ends the run with its error; a run without failure gives one
/// handle for each name.
pub open spec fn all_fetched<L: Fn(u32, Vec<u8>) -> ClientResult<Response>>(
    link: &L,
    use_cache: bool,
    pre: ClientView,
    names: Seq<Seq<char>>,
    post: ClientView,
    handles: Result<Seq<u32>, ClientError>,
) -> bool {
    exists|states: Seq<ClientView>, results: Seq<ClientResult<u32>>| #[trigger]
        fetches_run(link, use_cache, pre, names, states, results) && post == states.last()
            && match handles {
            Ok(found) => results.len() == names.len() && found.len() == names.len() && forall|
                j: int,
            |
                0 <= j < found.len() ==> results[j] == Ok::<u32, ClientError>(#[trigger] found[j]),
            Err(e) => results.len() > 0 && results.last() == Err::<u32, ClientError>(e),
        }
}

impl Client {
    /// Fetches the handle of each name of `var_list`, in their order.
    fn fetch_handles<L: Fn(u32, Vec<u8>) -> ClientResult<Response>>(
        &mut self,
        var_list: &Vec<String>,
        use_cache: bool,
        link: &L,
    ) -> (handles: ClientResult<Vec<u32>>)
        requires
            forall|id: u32, frame: Vec<u8>| call_requires(*link, (id, frame)),
        ensures
            all_fetched(
                link,
                use_cache,
                old(self)@,
                names_of(var_list@),
                final(self)@,
                handles_of(handles),
            ),
    {
        let ghost pre = self@;
        let ghost names = names_of(var_list@);
        let ghost mut states: Seq<ClientView> = seq![self@];
        let ghost mut results: Seq<ClientResult<u32>> = Seq::empty();
        let mut found: Vec<u32> = Vec::new();
        let mut i: usize = 0;
        while i < var_list.len()
            invariant
                i <= var_list@.len(),
                pre == old(self)@,
                names == names_of(var_list@),
                forall|id: u32, frame: Vec<u8>| call_requires(*link, (id, frame)),
                fetches_run(link, use_cache, pre, names, states, results),
                results.len() == i,
                found@.len() == i,
                states.last() == self@,
                forall|j: int| 0 <= j < i ==> results[j] == Ok::<u32, ClientError>(#[trigger] found@[j]),
            decreases var_list@.len() - i,
        {
            let ghost before = self@;
            let handle = if use_cache {
                self.get_var_handle(var_list[i].as_str(), link)
            } else {
                self.request_var_handle(var_list[i].as_str(), link)
            };
            proof {
                let old_states = states;
                let old_results = results;
                states = states.push(self@);
                results = results.push(handle);
                assert(handle_fetched(link, use_cache, before, names[i as int], self@, handle));
                assert forall|j: int|
                    #![trigger results[j]]
                    0 <= j < results.len() implies handle_fetched(
                    link,
                    use_cache,
                    states[j],
                    names[j],
                    states[j + 1],
                    results[j],
                ) by {
                    if j < i {
                        assert(results[j] == old_results[j]);
                        assert(states[j] == old_states[j]);
                        assert(states[j + 1] == old_states[j + 1]);
                    }
                }
                assert forall|j: int| 0 <= j < results.len() - 1 implies (#[trigger] results[j])
                    is Ok by {
                    assert(results[j] == old_results[j]);
                    assert(old_results[j] == Ok::<u32, ClientError>(found@[j]));
                }
            }
            match handle {
                Ok(h) => {
                    found.push(h);
                },
                Err(e) => {
                    assert(fetches_run(link, use_cache, pre, names, states, results));
                    assert(results.last() == Err::<u32, ClientError>(e));
                    return Err(e);
                },
            }
            i += 1;
        }
        assert(fetches_run(link, use_cache, pre, names, states, results));
        Ok(found)
    }

    /// Asks the controller for the handle of each variable of `var_list`, one
    /// request after the other, and caches nothing. The handles come in the
    /// order of the names.
    pub fn sumup_request_var_handle<L: Fn(u32, Vec<u8>) -> ClientResult<Response>>(
        &mut self,
        var_list: &Vec<String>,
        link: &L,
    ) -> (handles: ClientResult<Vec<u32>>)
        requires
            forall|id: u32, frame: Vec<u8>| call_requires(*link, (id, frame)),
        ensures
            all_fetched(
                link,
                false,
                old(self)@,
                names_of(var_list@),
                final(self)@,
                handles_of(handles),
            ),
    {
        self.fetch_handles(var_list, false, link)
    }
}

/// The names among `names` that the cache does not hold, in their order.
pub open spec fn missing(names: Seq<Seq<char>>, cached: Map<Seq<char>, u32>) -> Seq<Seq<char>>
    decreases names.len(),
{
    if names.len() == 0 {
        Seq::empty()
    } else if cached.contains_key(names.last()) {
        missing(names.drop_last(), cached)
    } else {
        missing(names.drop_last(), cached).push(names.last())
    }
}

/// The cache after each of `names` got its handle from `handles`, one after
/// the other; a later handle for the same name replaces an earlier one.
pub open spec fn cached_all(
    cached: Map<Seq<char>, u32>,
    names: Seq<Seq<char>>,
    handles: Seq<u32>,
) -> Map<Seq<char>, u32>
    decreases names.len(),
{
    if names.len() == 0 {
        cached
    } else {
        cached_all(cached, names.drop_last(), handles.drop_last()).insert(
            names.last(),
            handles.last(),
        )
    }
}

/// What `sumup_get_var_handle` does: it asks the controller for the names
/// that the cache does not hold, one request each; when all of them are
/// answered, it caches the answers and looks every name up. A name may stand
/// in the list more than once: where the cache does not hold it, it is asked
/// for once for each of its places, the answer to the last of these requests
/// is the one that is cached, and that handle is the handle at all of its
/// places.
pub open spec fn all_resolved<L: Fn(u32, Vec<u8>) -> ClientResult<Response>>(
    link: &L,
    pre: ClientView,
    names: Seq<Seq<char>>,
    post: ClientView,
    handles: Result<Seq<u32>, ClientError>,
) -> bool {
    exists|mid: ClientView, requested: Result<Seq<u32>, ClientError>| #[trigger]
        all_fetched(link, false, pre, missing(names, pre.handles), mid, requested)
            && match requested {
            Err(e) => post == mid && handles == Err::<Seq<u32>, ClientError>(e),
            Ok(answers) => {
                &&& post == (ClientView {
                    handles: cached_all(mid.handles, missing(names, pre.handles), answers),
                    ..mid
                })
                &&& handles matches Ok(found)
                &&& found.len() == names.len()
                &&& forall|i: int|
                    0 <= i < names.len() ==> post.handles.contains_key(#[trigger] names[i])
                        && found[i] == post.handles[names[i]]
            },
        }
}

/// A handle request that is answered with a handle leaves the caches alone.
pub proof fn lemma_request_keeps_caches<L: Fn(u32, Vec<u8>) -> ClientResult<Response>>(
    link: &L,
    pre: ClientView,
    var_name: Seq<char>,
    post: ClientView,
    handle: u32,
)
    requires
        handle_requested(link, pre, var_name, post, Ok(handle)),
    ensures
        post.handles == pre.handles,
        post.notification_handles == pre.notification_handles,
{
}

/// Handle requests that are all answered with a handle leave the caches alone.
pub proof fn lemma_requests_keep_caches<L: Fn(u32, Vec<u8>) -> ClientResult<Response>>(
    link: &L,
    pre: ClientView,
    names: Seq<Seq<char>>,
    post: ClientView,
    found: Seq<u32>,
)
    requires
        all_fetched(link, false, pre, names, post, Ok(found)),
    ensures
        post.handles == pre.handles,
        post.notification_handles == pre.notification_handles,
{
    let (states, results) = choose|states: Seq<ClientView>, results: Seq<ClientResult<u32>>| #[trigger]
        fetches_run(link, false, pre, names, states, results) && post == states.last()
            && results.len() == names.len() && found.len() == names.len() && forall|j: int|
            0 <= j < found.len() ==> results[j] == Ok::<u32, ClientError>(#[trigger] found[j]);
    lemma_run_keeps_caches(link, pre, names, states, results, found, results.len() as int);
}

proof fn lemma_run_keeps_caches<L: Fn(u32, Vec<u8>) -> ClientResult<Response>>(
    link: &L,
    pre: ClientView,
    names: Seq<Seq<char>>,
    states: Seq<ClientView>,
    results: Seq<ClientResult<u32>>,
    found: Seq<u32>,
    k: int,
)
    requires
        fetches_run(link, false, pre, names, states, results),
        found.len() == results.len(),
        forall|j: int| 0 <= j < found.len() ==> results[j] == Ok::<u32, ClientError>(#[trigger] found[j]),
        0 <= k <= results.len(),
    ensures
        states[k].handles == pre.handles,
        states[k].notification_handles == pre.notification_handles,
    decreases k,
{
    if k > 0 {
        lemma_run_keeps_caches(link, pre, names, states, results, found, k - 1);
        assert(results[k - 1] == Ok::<u32, ClientError>(found[k - 1]));
        lemma_request_keeps_caches(link, states[k - 1], names[k - 1], states[k], found[k - 1]);
    }
}

/// After `cached_all`, the cache holds what it held and each of the names.
pub proof fn lemma_cached_all_keys(
    cached: Map<Seq<char>, u32>,
    names: Seq<Seq<char>>,
    handles: Seq<u32>,
    name: Seq<char>,
)
    ensures
        cached_all(cached, names, handles).contains_key(name) <==> cached.contains_key(name)
            || names.contains(name),
    decreases names.len(),
{
    if names.len() > 0 {
        lemma_cached_all_keys(cached, names.drop_last(), handles.drop_last(), name);
        if names.drop_last().contains(name) {
            let i = choose|i: int| 0 <= i < names.drop_last().len() && names.drop_last()[i] == name;
            assert(names[i] == name);
        }
        if names.contains(name) {
            let i = choose|i: int| 0 <= i < names.len() && names[i] == name;
            if i < names.len() - 1 {
                assert(names.drop_last()[i] == name);
            }
        }
    }
}

/// A name that the cache does not hold is among the missing ones.
pub proof fn lemma_missing_holds(names: Seq<Seq<char>>, cached: Map<Seq<char>, u32>, i: int)
    requires
        0 <= i < names.len(),
        !cached.contains_key(names[i]),
    ensures
        missing(names, cached).contains(names[i]),
    decreases names.len(),
{
    let front = missing(names.drop_last(), cached);
    if i < names.len() - 1 {
        lemma_missing_holds(names.drop_last(), cached, i);
        let j = choose|j: int| 0 <= j < front.len() && front[j] == names.drop_last()[i];
        if !cached.contains_key(names.last()) {
            assert(front.push(names.last())[j] == names[i]);
        }
    } else {
        assert(front.push(names.last())[front.len() as int] == names[i]);
    }
}

/// A name that stands in the list more than once has one handle: the handles
/// that `sumup_get_var_handle` gives for two places with the same name are
/// the same, and they are the handle that is cached under the name.
pub proof fn lemma_repeated_name_has_one_handle<L: Fn(u32, Vec<u8>) -> ClientResult<Response>>(
    link: &L,
    pre: ClientView,
    names: Seq<Seq<char>>,
    post: ClientView,
    found: Seq<u32>,
    i: int,
    j: int,
)
    requires
        all_resolved(link, pre, names, post, Ok(found)),
        0 <= i < names.len(),
        0 <= j < names.len(),
        names[i] == names[j],
    ensures
        found[i] == found[j],
        post.handles.contains_key(names[i]),
        found[i] == post.handles[names[i]],
{
}

impl Client {
    /// Finds the handle of each variable of `var_names`. The names that the
    /// cache does not hold are asked from the controller, one request after
    /// the other; once all of them are answered, the answers are cached. The
    /// handles come in the order of the names.
    pub fn sumup_get_var_handle<L: Fn(u32, Vec<u8>) -> ClientResult<Response>>(
        &mut self,
        var_names: &Vec<String>,
        link: &L,
    ) -> (handles: ClientResult<Vec<u32>>)
        requires
            forall|id: u32, frame: Vec<u8>| call_requires(*link, (id, frame)),
        ensures
            all_resolved(
                link,
                old(self)@,
                names_of(var_names@),
                final(self)@,
                handles_of(handles),
            ),
    {
        let ghost pre = self@;
        let ghost names = names_of(var_names@);
        let mut do_request: Vec<String> = Vec::new();
        let mut i: usize = 0;
        while i < var_names.len()
            invariant
                i <= var_names@.len(),
                self@ == pre,
                names == names_of(var_names@),
                names_of(do_request@) == missing(names.take(i as int), pre.handles),
            decreases var_names@.len() - i,
        {
            assert(names.take(i as int + 1).drop_last() =~= names.take(i as int));
            if self.handle_list.get(var_names[i].as_str()).is_none() {
                let ghost before = do_request@;
                do_request.push(var_names[i].clone());
                assert(names_of(do_request@) =~= names_of(before).push(names[i as int]));
            }
            i += 1;
        }
        assert(names.take(i as int) =~= names);
        let ghost wanted = missing(names, pre.handles);
        let requested = match self.sumup_request_var_handle(&do_request, link) {
            Ok(requested) => requested,
            Err(e) => {
                return Err(e);
            },
        };
        let ghost mid = self@;
        proof {
            lemma_requests_keep_caches(link, pre, wanted, mid, requested@);
        }
        let mut j: usize = 0;
        while j < do_request.len()
            invariant
                j <= do_request@.len(),
                requested@.len() == do_request@.len(),
                wanted == names_of(do_request@),
                self@ == (ClientView {
                    handles: cached_all(
                        mid.handles,
                        wanted.take(j as int),
                        requested@.take(j as int),
                    ),
                    ..mid
                }),
            decreases do_request@.len() - j,
        {
            assert(wanted.take(j as int + 1).drop_last() =~= wanted.take(j as int));
            assert(requested@.take(j as int + 1).drop_last() =~= requested@.take(j as int));
            self.handle_list.insert(do_request[j].as_str(), requested[j]);
            j += 1;
        }
        assert(wanted.take(j as int) =~= wanted);
        assert(requested@.take(j as int) =~= requested@);
        let ghost post = self@;
        let mut handles: Vec<u32> = Vec::new();
        let mut k: usize = 0;
        while k < var_names.len()
            invariant
                k <= var_names@.len(),
                names == names_of(var_names@),
                self@ == post,
                post.handles == cached_all(mid.handles, wanted, requested@),
                mid.handles == pre.handles,
                wanted == missing(names, pre.handles),
                handles@.len() == k,
                forall|i: int|
                    0 <= i < k ==> post.handles.contains_key(#[trigger] names[i]) && handles@[i]
                        == post.handles[names[i]],
            decreases var_names@.len() - k,
        {
            proof {
                lemma_cached_all_keys(mid.handles, wanted, requested@, names[k as int]);
                if !pre.handles.contains_key(names[k as int]) {
                    lemma_missing_holds(names, pre.handles, k as int);
                }
            }
            if let Some(handle) = self.handle_list.get(var_names[k].as_str()) {
                handles.push(handle);
            }
            k += 1;
        }
        Ok(handles)
    }
}

/// The names of the variables of a bundled read.
pub open spec fn read_names(var_list: Seq<(String, u32)>) -> Seq<Seq<char>> {
    Seq::new(var_list.len(), |i: int| var_list[i].0@)
}

/// The reads of a bundled read: variable `i` is read by handle `handles[i]`
/// in the length that the list asks for.
pub open spec fn read_requests(handles: Seq<u32>, var_list: Seq<(String, u32)>) -> Seq<
    ReadRequest,
> {
    Seq::new(
        var_list.len(),
        |i: int|
            ReadRequest {
                index_group: READ_WRITE_SYMVAL_BY_HANDLE,
                index_offset: handles[i],
                length: var_list[i].1,
            },
    )
}

/// The number of bytes that the answers to a bundled read take: for each
/// variable its result, its length and its data.
pub open spec fn expected_read_len(var_list: Seq<(String, u32)>) -> nat
    decreases var_list.len(),
{
    if var_list.len() == 0 {
        0
    } else {
        expected_read_len(var_list.drop_last()) + var_list.last().1 as nat + 8
    }
}

/// The answers to a longer list take more bytes, and every variable takes
/// eight at least.
pub proof fn lemma_expected_read_len_grows(var_list: Seq<(String, u32)>, i: int)
    requires
        0 <= i <= var_list.len(),
    ensures
        expected_read_len(var_list.take(i)) <= expected_read_len(var_list),
        8 * var_list.len() <= expected_read_len(var_list),
    decreases var_list.len(),
{
    if var_list.len() > 0 {
        if i < var_list.len() {
            lemma_expected_read_len_grows(var_list.drop_last(), i);
            assert(var_list.drop_last().take(i) =~= var_list.take(i));
        } else {
            lemma_expected_read_len_grows(var_list.drop_last(), i - 1);
            assert(var_list.take(i) =~= var_list);
        }
    } else {
        assert(var_list.take(i) =~= var_list);
    }
}

/// `request` bundles the reads of `var_list` by the handles `handles`.
pub open spec fn is_sumup_read_request(
    request: Request,
    handles: Seq<u32>,
    var_list: Seq<(String, u32)>,
) -> bool {
    &&& request matches Request::ReadWrite(rw)
    &&& rw.index_group == ADSIGRP_SUMUP_READEX
    &&& rw.index_offset == var_list.len()
    &&& rw.read_length == expected_read_len(var_list)
    &&& rw.data@ == read_records(read_requests(handles, var_list))
}

/// What a reply to a bundled read holds for `var_list`. A read-write response
/// without error whose data is laid out as the answers to as many reads as
/// the list has variables gives each variable its answer, by position. An
/// error in the response is the error of the whole read; data that is laid
/// out otherwise is malformed.
pub open spec fn sumup_read_done(
    var_list: Seq<(String, u32)>,
    reply: ClientResult<Response>,
    result: ClientResult<Vec<(String, ReadResponse)>>,
) -> bool {
    match as_read_write(reply) {
        Err(e) => result == Err::<Vec<(String, ReadResponse)>, ClientError>(e),
        Ok(rw) => if rw.result != ERR_NO_ERROR {
            result == Err::<Vec<(String, ReadResponse)>, ClientError>(ClientError::Ads(rw.result))
        } else if !sumup_read_layout(rw.data@, var_list.len()) {
            result == Err::<Vec<(String, ReadResponse)>, ClientError>(ClientError::Malformed)
        } else {
            &&& result matches Ok(entries)
            &&& entries@.len() == var_list.len()
            &&& forall|i: int|
                0 <= i < var_list.len() ==> (#[trigger] entries@[i]).0@ == var_list[i].0@
                    && sumup_read_answer(rw.data@, var_list.len(), i, entries@[i].1)
        },
    }
}

/// Gives each variable of `var_list` its answer from the reply to the
/// bundled read of the list.
pub fn sumup_read_results(var_list: &Vec<(String, u32)>, reply: ClientResult<Response>) -> (result:
    ClientResult<Vec<(String, ReadResponse)>>)
    ensures
        sumup_read_done(var_list@, reply, result),
{
    let rw = match expect_read_write(reply) {
        Ok(rw) => rw,
        Err(e) => {
            return Err(e);
        },
    };
    if rw.result != ERR_NO_ERROR {
        return Err(ClientError::Ads(rw.result));
    }
    if !sumup_read_layout_ok(rw.data.as_slice(), var_list.len()) {
        return Err(ClientError::Malformed);
    }
    let responses = decode_sumup_read(rw.data.as_slice(), var_list.len());
    let ghost all = responses@;
    let mut entries: Vec<(String, ReadResponse)> = Vec::new();
    for response in it: responses
        invariant
            it.seq() == all,
            all.len() == var_list@.len(),
            entries@.len() == it.index(),
            forall|i: int|
                0 <= i < entries@.len() ==> (#[trigger] entries@[i]).0@ == var_list@[i].0@
                    && entries@[i].1 == all[i],
    {
        let name = var_list[entries.len()].0.clone();
        entries.push((name, response));
    }
    Ok(entries)
}

/// What `sumup_read_by_name` does: it finds the handles of all variables,
/// sends their reads bundled in one request, and gives each variable its
/// answer. A list whose answers would take more bytes than a length field
/// can announce is refused before the request. A name that stands in the
/// list more than once is read once for each of its places, each time in the
/// length of that place, and gets an answer at each of them.
pub open spec fn sumup_read<L: Fn(u32, Vec<u8>) -> ClientResult<Response>>(
    link: &L,
    pre: ClientView,
    var_list: Seq<(String, u32)>,
    post: ClientView,
    result: ClientResult<Vec<(String, ReadResponse)>>,
) -> bool {
    exists|mid: ClientView, handles: Result<Seq<u32>, ClientError>| #[trigger]
        all_resolved(link, pre, read_names(var_list), mid, handles) && match handles {
            Err(e) => post == mid && result == Err::<Vec<(String, ReadResponse)>, ClientError>(e),
            Ok(found) => if expected_read_len(var_list) > u32::MAX {
                post == mid && result == Err::<Vec<(String, ReadResponse)>, ClientError>(
                    ClientError::RequestTooLarge,
                )
            } else {
                exists|request: Request, reply: ClientResult<Response>|
                    is_sumup_read_request(request, found, var_list) && #[trigger] exchanged(
                        link,
                        mid,
                        request,
                        post,
                        reply,
                    ) && sumup_read_done(var_list, reply, result)
            },
        }
}

impl Client {
    /// Reads several variables with one request. `var_list` names each
    /// variable and the number of bytes to read; the answers come in the
    /// order of the list, each with the name of its variable.
    pub fn sumup_read_by_name<L: Fn(u32, Vec<u8>) -> ClientResult<Response>>(
        &mut self,
        var_list: &Vec<(String, u32)>,
        link: &L,
    ) -> (result: ClientResult<Vec<(String, ReadResponse)>>)
        requires
            forall|id: u32, frame: Vec<u8>| call_requires(*link, (id, frame)),
        ensures
            sumup_read(link, old(self)@, var_list@, final(self)@, result),
    {
        let mut var_names: Vec<String> = Vec::new();
        let mut i: usize = 0;
        while i < var_list.len()
            invariant
                i <= var_list@.len(),
                var_names@.len() == i,
                forall|j: int| 0 <= j < i ==> (#[trigger] var_names@[j])@ == var_list@[j].0@,
            decreases var_list@.len() - i,
        {
            var_names.push(var_list[i].0.clone());
            i += 1;
        }
        assert(names_of(var_names@) =~= read_names(var_list@));
        let handles = match self.sumup_get_var_handle(&var_names, link) {
            Ok(handles) => handles,
            Err(e) => {
                return Err(e);
            },
        };
        let mut requests: Vec<ReadRequest> = Vec::new();
        let mut expected: u32 = 0;
        let mut k: usize = 0;
        while k < var_list.len()
            invariant
                k <= var_list@.len(),
                all_resolved(
                    link,
                    old(self)@,
                    read_names(var_list@),
                    self@,
                    Ok::<Seq<u32>, ClientError>(handles@),
                ),
                handles@.len() == var_list@.len(),
                requests@.len() == k,
                forall|j: int|
                    0 <= j < k ==> #[trigger] requests@[j] == read_requests(
                        handles@,
                        var_list@,
                    )[j],
                expected == expected_read_len(var_list@.take(k as int)),
            decreases var_list@.len() - k,
        {
            assert(var_list@.take(k as int + 1).drop_last() =~= var_list@.take(k as int));
            let length = var_list[k].1;
            if expected > 0xFFFF_FFF7 || length > 0xFFFF_FFF7 - expected {
                proof {
                    lemma_expected_read_len_grows(var_list@, k as int + 1);
                }
                return Err(ClientError::RequestTooLarge);
            }
            expected = expected + length + 8;
            requests.push(get_read_request(handles[k], length));
            k += 1;
        }
        proof {
            assert(var_list@.take(k as int) =~= var_list@);
            assert(requests@ =~= read_requests(handles@, var_list@));
            lemma_expected_read_len_grows(var_list@, 0);
        }
        let count = var_list.len() as u32;
        let data = encode_sumup_read(&requests);
        let request = Request::ReadWrite(get_sumup_read_request(count, expected, data));
        let reply = self.request(request, link);
        sumup_read_results(var_list, reply)
    }
}

/// The names of the variables of a bundled write.
pub open spec fn write_names(var_list: Seq<(String, Vec<u8>)>) -> Seq<Seq<char>> {
    Seq::new(var_list.len(), |i: int| var_list[i].0@)
}

/// The writes of a bundled write: variable `i` is written by handle
/// `handles[i]` with the data that the list holds for it.
pub open spec fn write_requests(handles: Seq<u32>, var_list: Seq<(String, Vec<u8>)>) -> Seq<
    WriteRequest,
> {
    Seq::new(
        var_list.len(),
        |i: int|
            WriteRequest {
                index_group: READ_WRITE_SYMVAL_BY_HANDLE,
                index_offset: handles[i],
                data: var_list[i].1,
            },
    )
}

/// The lists that can be bundled: the results of all writes fit into what a
/// length field can announce, and so does the data of each write.
pub open spec fn write_sizes_ok(var_list: Seq<(String, Vec<u8>)>) -> bool {
    &&& var_list.len() <= 0x3FFF_FFFF
    &&& forall|i: int| 0 <= i < var_list.len() ==> (#[trigger] var_list[i]).1@.len() <= u32::MAX
}

/// Writes that agree in group, offset and bytes look the same on the wire.
pub proof fn lemma_write_bytes_by_view(a: Seq<WriteRequest>, b: Seq<WriteRequest>)
    requires
        a.len() == b.len(),
        forall|i: int|
            0 <= i < a.len() ==> (#[trigger] a[i]).index_group == b[i].index_group
                && a[i].index_offset == b[i].index_offset && a[i].data@ == b[i].data@,
    ensures
        write_records(a) == write_records(b),
        write_bodies(a) == write_bodies(b),
    decreases a.len(),
{
    if a.len() > 0 {
        assert(a.last().data@ == b.last().data@) by {
            assert(a[a.len() - 1].data@ == b[a.len() - 1].data@);
        }
        assert(a[a.len() - 1].index_group == b[a.len() - 1].index_group);
        assert forall|i: int| 0 <= i < a.drop_last().len() implies (#[trigger] a.drop_last()[i]).index_group
            == b.drop_last()[i].index_group && a.drop_last()[i].index_offset
            == b.drop_last()[i].index_offset && a.drop_last()[i].data@ == b.drop_last()[i].data@ by {
            assert(a[i].data@ == b[i].data@);
        }
        lemma_write_bytes_by_view(a.drop_last(), b.drop_last());
    }
}

/// `request` bundles the writes of `var_list` by the handles `handles`.
pub open spec fn is_sumup_write_request(
    request: Request,
    handles: Seq<u32>,
    var_list: Seq<(String, Vec<u8>)>,
) -> bool {
    &&& request matches Request::ReadWrite(rw)
    &&& rw.index_group == ADSIGRP_SUMUP_WRITE
    &&& rw.index_offset == var_list.len()
    &&& rw.read_length == 4 * var_list.len()
    &&& rw.data@ == write_records(write_requests(handles, var_list)) + write_bodies(
        write_requests(handles, var_list),
    )
}

/// What a reply to a bundled write holds for `var_list`. A read-write
/// response without error whose data holds a result for every variable gives
/// each variable its result, by position. An error in the response is the
/// error of the whole write; data with fewer results is malformed.
pub open spec fn sumup_write_done(
    var_list: Seq<(String, Vec<u8>)>,
    reply: ClientResult<Response>,
    result: ClientResult<Vec<(String, WriteResponse)>>,
) -> bool {
    match as_read_write(reply) {
        Err(e) => result == Err::<Vec<(String, WriteResponse)>, ClientError>(e),
        Ok(rw) => if rw.result != ERR_NO_ERROR {
            result == Err::<Vec<(String, WriteResponse)>, ClientError>(ClientError::Ads(rw.result))
        } else if rw.data@.len() / 4 < var_list.len() {
            result == Err::<Vec<(String, WriteResponse)>, ClientError>(ClientError::Malformed)
        } else {
            &&& result matches Ok(entries)
            &&& entries@.len() == var_list.len()
            &&& forall|i: int|
                0 <= i < var_list.len() ==> (#[trigger] entries@[i]).0@ == var_list[i].0@
                    && entries@[i].1.result == le32_at(rw.data@, 4 * i)
        },
    }
}

/// Gives each variable of `var_list` its result from the reply to the
/// bundled write of the list.
pub fn sumup_write_results(
    var_list: &Vec<(String, Vec<u8>)>,
    reply: ClientResult<Response>,
) -> (result: ClientResult<Vec<(String, WriteResponse)>>)
    ensures
        sumup_write_done(var_list@, reply, result),
{
    let rw = match expect_read_write(reply) {
        Ok(rw) => rw,
        Err(e) => {
            return Err(e);
        },
    };
    if rw.result != ERR_NO_ERROR {
        return Err(ClientError::Ads(rw.result));
    }
    let responses = decode_sumup_write(rw.data.as_slice());
    if responses.len() < var_list.len() {
        return Err(ClientError::Malformed);
    }
    let mut entries: Vec<(String, WriteResponse)> = Vec::new();
    let mut i: usize = 0;
    while i < var_list.len()
        invariant
            i <= var_list@.len(),
            var_list@.len() <= responses@.len(),
            responses@.len() == rw.data@.len() / 4,
            forall|j: int|
                0 <= j < responses@.len() ==> (#[trigger] responses@[j]).result == le32_at(
                    rw.data@,
                    4 * j,
                ),
            entries@.len() == i,
            forall|j: int|
                0 <= j < i ==> (#[trigger] entries@[j]).0@ == var_list@[j].0@ && entries@[j].1.result
                    == le32_at(rw.data@, 4 * j),
        decreases var_list@.len() - i,
    {
        entries.push((var_list[i].0.clone(), responses[i]));
        i += 1;
    }
    Ok(entries)
}

/// What `sumup_write_by_name` does: it finds the handle of each variable in
/// turn, sends the writes bundled in one request, and gives each variable its
/// result. A list that cannot be bundled is refused at once. A name that
/// stands in the list more than once is written once for each of its places,
/// in the order of the list, and gets a result at each of them.
pub open spec fn sumup_write<L: Fn(u32, Vec<u8>) -> ClientResult<Response>>(
    link: &L,
    pre: ClientView,
    var_list: Seq<(String, Vec<u8>)>,
    post: ClientView,
    result: ClientResult<Vec<(String, WriteResponse)>>,
) -> bool {
    if !write_sizes_ok(var_list) {
        post == pre && result == Err::<Vec<(String, WriteResponse)>, ClientError>(
            ClientError::RequestTooLarge,
        )
    } else {
        exists|mid: ClientView, handles: Result<Seq<u32>, ClientError>| #[trigger]
            all_fetched(link, true, pre, write_names(var_list), mid, handles) && match handles {
                Err(e) => post == mid && result == Err::<
                    Vec<(String, WriteResponse)>,
                    ClientError,
                >(e),
                Ok(found) => exists|request: Request, reply: ClientResult<Response>|
                    is_sumup_write_request(request, found, var_list) && #[trigger] exchanged(
                        link,
                        mid,
                        request,
                        post,
                        reply,
                    ) && sumup_write_done(var_list, reply, result),
            }
    }
}

/// Tells whether the writes of `var_list` can be bundled.
fn check_write_sizes(var_list: &Vec<(String, Vec<u8>)>) -> (ok: bool)
    ensures
        ok == write_sizes_ok(var_list@),
{
    if var_list.len() > 0x3FFF_FFFF {
        return false;
    }
    let mut i: usize = 0;
    while i < var_list.len()
        invariant
            i <= var_list@.len(),
            forall|j: int| 0 <= j < i ==> (#[trigger] var_list@[j]).1@.len() <= u32::MAX,
        decreases var_list@.len() - i,
    {
        if var_list[i].1.len() > 0xFFFF_FFFF {
            return false;
        }
        i += 1;
    }
    true
}

impl Client {
    /// Writes several variables with one request. `var_list` names each
    /// variable and holds the bytes to write; the results come in the order
    /// of the list, each with the name of its variable.
    pub fn sumup_write_by_name<L: Fn(u32, Vec<u8>) -> ClientResult<Response>>(
        &mut self,
        var_list: Vec<(String, Vec<u8>)>,
        link: &L,
    ) -> (result: ClientResult<Vec<(String, WriteResponse)>>)
        requires
            forall|id: u32, frame: Vec<u8>| call_requires(*link, (id, frame)),
        ensures
            sumup_write(link, old(self)@, var_list@, final(self)@, result),
    {
        if !check_write_sizes(&var_list) {
            return Err(ClientError::RequestTooLarge);
        }
        let mut var_names: Vec<String> = Vec::new();
        let mut i: usize = 0;
        while i < var_list.len()
            invariant
                i <= var_list@.len(),
                var_names@.len() == i,
                forall|j: int| 0 <= j < i ==> (#[trigger] var_names@[j])@ == var_list@[j].0@,
            decreases var_list@.len() - i,
        {
            var_names.push(var_list[i].0.clone());
            i += 1;
        }
        assert(names_of(var_names@) =~= write_names(var_list@));
        let handles = match self.fetch_handles(&var_names, true, link) {
            Ok(handles) => handles,
            Err(e) => {
                return Err(e);
            },
        };
        let mut requests: Vec<WriteRequest> = Vec::new();
        let mut k: usize = 0;
        while k < var_list.len()
            invariant
                k <= var_list@.len(),
                handles@.len() == var_list@.len(),
                requests@.len() == k,
                forall|j: int|
                    0 <= j < k ==> (#[trigger] requests@[j]).index_group
                        == READ_WRITE_SYMVAL_BY_HANDLE && requests@[j].index_offset == handles@[j]
                        && requests@[j].data@ == var_list@[j].1@,
            decreases var_list@.len() - k,
        {
            let data = var_list[k].1.clone();
            assert(data@ =~= var_list@[k as int].1@);
            requests.push(get_write_request(handles[k], data));
            k += 1;
        }
        proof {
            lemma_write_bytes_by_view(requests@, write_requests(handles@, var_list@));
        }
        let count = var_list.len() as u32;
        let data = encode_sumup_write(&requests);
        let request = Request::ReadWrite(get_sumup_write_request(count, count * 4, data));
        let reply = self.request(request, link);
        sumup_write_results(&var_list, reply)
    }
}

} // verus!
