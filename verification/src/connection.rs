//! The response demultiplexer.
//!
//! A connection mints strictly increasing tokens, turns queries into framed
//! request bytes, and sorts received frames into the cursor they belong to
//! or a per-token stash. A cursor decodes one length-prefixed record of its
//! accumulated bytes per advance. Drained buffers return to a bounded free
//! list, and a reset bumps the generation counter, which invalidates every
//! cursor minted before it.
//!
//! The connection itself performs no transport work: its owner sends the
//! frames it produces and feeds back the frames it receives.
use vstd::prelude::*;
use vstd::utf8::{encode_utf8, valid_utf8};
use crate::errors::{Error, ErrorKind};
use crate::query::IntoAst;
use crate::response::{extract_from_response, parse_response, Complete, Resp};
use crate::wire::{
    frame, frame_spec, request_body, request_body_spec, u32_be_bytes, u32_from_be4, push_u32_be,
    continue_frame, continue_body_spec, u64_be_bytes, GlobalOptions, Token,
};

verus! {

/// Largest buffer the free list keeps, in bytes of capacity.
pub const MAX_BUFFER_CAPACITY: usize = 4096;

/// Most buffers the free list keeps.
pub const MAX_NUM_BUFFERS: usize = 32;

/// Identity of one connection; cursors only fit the connection that made
/// them.
#[derive(Clone, Copy, Debug, PartialEq, Eq, Structural)]
pub struct ConnectionId(pub u64);

impl ConnectionId {
    /// Wrap the process-unique number its owner allocated.
    pub fn new(id: u64) -> (r: ConnectionId)
        ensures
            r.0 == id,
    {
        ConnectionId(id)
    }
}

/// Relies on Vec::capacity: the capacity is at least the length.
#[verifier::external_body]
fn vec_capacity(v: &Vec<u8>) -> (r: usize)
    ensures
        r >= v@.len(),
{
    v.capacity()
}

/// Return a drained buffer of the given measured capacity to the free
/// list: it is kept exactly when it stayed within the size cap and the
/// list is not full, and dropped otherwise.
pub fn reclaim(buffers: &mut Vec<Vec<u8>>, buffer: Vec<u8>, cap: usize)
    requires
        buffer@.len() == 0,
    ensures
        final(buffers)@ == if cap <= MAX_BUFFER_CAPACITY && old(buffers)@.len()
            < MAX_NUM_BUFFERS {
            old(buffers)@.push(buffer)
        } else {
            old(buffers)@
        },
{
    if cap <= MAX_BUFFER_CAPACITY && buffers.len() < MAX_NUM_BUFFERS {
        buffers.push(buffer);
    }
}

/// One free list extends another when it only gained drained buffers.
pub open spec fn free_grows(pre: Seq<Seq<u8>>, post: Seq<Seq<u8>>) -> bool {
    &&& post.len() >= pre.len()
    &&& post.subrange(0, pre.len() as int) == pre
    &&& forall|i: int| pre.len() <= i < post.len() ==> #[trigger] post[i].len() == 0
}

pub proof fn lemma_free_grows_refl(s: Seq<Seq<u8>>)
    ensures
        free_grows(s, s),
{
    assert(s.subrange(0, s.len() as int) =~= s);
}

pub proof fn lemma_free_grows_push(pre: Seq<Seq<u8>>, post: Seq<Seq<u8>>, b: Seq<u8>)
    requires
        free_grows(pre, post),
        b.len() == 0,
    ensures
        free_grows(pre, post.push(b)),
{
    assert(post.push(b).subrange(0, pre.len() as int) =~= post.subrange(0, pre.len() as int));
}

pub proof fn lemma_free_grows_trans(a: Seq<Seq<u8>>, b: Seq<Seq<u8>>, c: Seq<Seq<u8>>)
    requires
        free_grows(a, b),
        free_grows(b, c),
    ensures
        free_grows(a, c),
{
    assert(c.subrange(0, a.len() as int) =~= c.subrange(0, b.len() as int).subrange(
        0,
        a.len() as int,
    ));
    assert forall|i: int| a.len() <= i < c.len() implies #[trigger] c[i].len() == 0 by {
        if i < b.len() {
            assert(c.subrange(0, b.len() as int)[i] == c[i]);
        }
    }
}

/// Model of a connection.
pub struct ConnV {
    pub id: u64,
    pub next_token: u64,
    pub num_resets: u64,
    pub options: GlobalOptions,
    /// Received frames awaiting their cursor, as (token, bytes) in arrival
    /// order.
    pub stash: Seq<(u64, Seq<u8>)>,
    pub free: Seq<Seq<u8>>,
}

/// Model of a cursor.
pub struct CursorV {
    pub token: u64,
    pub conn_id: u64,
    pub num_resets: u64,
    pub buffer: Option<Seq<u8>>,
    pub position: int,
    pub exhausted: bool,
}

/// The demultiplexer's state for one connection.
pub struct Connection {
    connection_id: ConnectionId,
    next_token: u64,
    num_resets: u64,
    options: GlobalOptions,
    responses: Vec<(u64, Vec<u8>)>,
    buffers: Vec<Vec<u8>>,
}

/// A handle for reading the batches of one outstanding request.
pub struct Cursor {
    token: Token,
    connection_id: ConnectionId,
    num_resets: u64,
    buffer: Option<Vec<u8>>,
    position: usize,
    exhausted: bool,
}

/// Model of a frame stash.
pub open spec fn stash_view(v: Seq<(u64, Vec<u8>)>) -> Seq<(u64, Seq<u8>)>
    decreases v.len(),
{
    if v.len() == 0 {
        Seq::empty()
    } else {
        seq![(v[0].0, v[0].1@)] + stash_view(v.subrange(1, v.len() as int))
    }
}

pub proof fn lemma_stash_view_index(v: Seq<(u64, Vec<u8>)>)
    ensures
        stash_view(v).len() == v.len(),
        forall|i: int| 0 <= i < v.len() ==> stash_view(v)[i] == ((#[trigger] v[i]).0, v[i].1@),
    decreases v.len(),
{
    if v.len() > 0 {
        let tail = v.subrange(1, v.len() as int);
        lemma_stash_view_index(tail);
        assert forall|i: int|
            0 <= i < v.len() implies stash_view(v)[i] == ((#[trigger] v[i]).0, v[i].1@) by {
            if i > 0 {
                assert(stash_view(v)[i] == stash_view(tail)[i - 1]);
                assert(tail[i - 1] == v[i]);
            }
        }
    }
}

pub proof fn lemma_stash_view_push(v: Seq<(u64, Vec<u8>)>, x: (u64, Vec<u8>))
    ensures
        stash_view(v.push(x)) == stash_view(v).push((x.0, x.1@)),
{
    lemma_stash_view_index(v);
    lemma_stash_view_index(v.push(x));
    assert forall|i: int|
        0 <= i < stash_view(v.push(x)).len() implies #[trigger] stash_view(v.push(x))[i]
        == stash_view(v).push((x.0, x.1@))[i] by {
        if i < v.len() {
            assert(v.push(x)[i] == v[i]);
        } else {
            assert(v.push(x)[i] == x);
        }
    }
    assert(stash_view(v.push(x)) =~= stash_view(v).push((x.0, x.1@)));
}

/// Model of a free list.
pub open spec fn free_view(v: Seq<Vec<u8>>) -> Seq<Seq<u8>>
    decreases v.len(),
{
    if v.len() == 0 {
        Seq::empty()
    } else {
        free_view(v.drop_last()).push(v.last()@)
    }
}

impl View for Connection {
    type V = ConnV;

    closed spec fn view(&self) -> ConnV {
        ConnV {
            id: self.connection_id.0,
            next_token: self.next_token,
            num_resets: self.num_resets,
            options: self.options,
            stash: stash_view(self.responses@),
            free: free_view(self.buffers@),
        }
    }
}

impl View for Cursor {
    type V = CursorV;

    closed spec fn view(&self) -> CursorV {
        CursorV {
            token: self.token.0,
            conn_id: self.connection_id.0,
            num_resets: self.num_resets,
            buffer: match self.buffer {
                Some(b) => Some(b@),
                None => None,
            },
            position: self.position as int,
            exhausted: self.exhausted,
        }
    }
}

impl Cursor {
    /// Whether this cursor has delivered its last batch.
    pub fn exhausted(&self) -> (r: bool)
        ensures
            r == self@.exhausted,
    {
        self.exhausted
    }

    /// The token of the request this cursor reads.
    pub fn token(&self) -> (r: Token)
        ensures
            r.0 == self@.token,
    {
        self.token
    }

    /// The identity of the connection this cursor belongs to.
    pub fn connection(&self) -> (r: ConnectionId)
        ensures
            r.0 == self@.conn_id,
    {
        self.connection_id
    }
}

/// The connection's invariant: the free list stays within its bounds and
/// holds only drained buffers.
pub open spec fn inv(c: ConnV) -> bool {
    &&& c.free.len() <= MAX_NUM_BUFFERS
    &&& forall|i: int| 0 <= i < c.free.len() ==> #[trigger] c.free[i].len() == 0
    &&& c.next_token >= 1
}

/// Bytes stashed for a token, in arrival order.
pub open spec fn pending(stash: Seq<(u64, Seq<u8>)>, t: u64) -> Seq<u8>
    decreases stash.len(),
{
    if stash.len() == 0 {
        Seq::empty()
    } else {
        (if stash[0].0 == t {
            stash[0].1
        } else {
            Seq::empty()
        }) + pending(stash.subrange(1, stash.len() as int), t)
    }
}

/// Whether any frame is stashed for a token.
pub open spec fn stash_has(stash: Seq<(u64, Seq<u8>)>, t: u64) -> bool {
    exists|i: int| 0 <= i < stash.len() && (#[trigger] stash[i]).0 == t
}

/// The stash with every frame of one token taken out.
pub open spec fn remove_token(stash: Seq<(u64, Seq<u8>)>, t: u64) -> Seq<(u64, Seq<u8>)>
    decreases stash.len(),
{
    if stash.len() == 0 {
        Seq::empty()
    } else {
        let rest = remove_token(stash.subrange(1, stash.len() as int), t);
        if stash[0].0 == t {
            rest
        } else {
            seq![stash[0]] + rest
        }
    }
}

/// Receiving a frame for another token appends its bytes to that token's
/// stashed run, in arrival order, and touches nothing else.
pub proof fn lemma_pending_append(stash: Seq<(u64, Seq<u8>)>, t: u64, x: (u64, Seq<u8>))
    ensures
        pending(stash.push(x), t) == pending(stash, t) + (if x.0 == t {
            x.1
        } else {
            Seq::<u8>::empty()
        }),
        remove_token(stash.push(x), t) == (if x.0 == t {
            remove_token(stash, t)
        } else {
            remove_token(stash, t).push(x)
        }),
    decreases stash.len(),
{
    if stash.len() == 0 {
        reveal_with_fuel(pending, 3);
        reveal_with_fuel(remove_token, 3);
        assert(stash.push(x).subrange(1, 1) =~= Seq::<(u64, Seq<u8>)>::empty());
        assert(pending(stash.push(x), t) =~= pending(stash, t) + (if x.0 == t {
            x.1
        } else {
            Seq::<u8>::empty()
        }));
        assert(remove_token(stash.push(x), t) =~= (if x.0 == t {
            remove_token(stash, t)
        } else {
            remove_token(stash, t).push(x)
        }));
    } else {
        let tail = stash.subrange(1, stash.len() as int);
        lemma_pending_append(tail, t, x);
        assert(stash.push(x).subrange(1, stash.len() as int + 1) =~= tail.push(x));
        assert(pending(stash.push(x), t) =~= pending(stash, t) + (if x.0 == t {
            x.1
        } else {
            Seq::<u8>::empty()
        }));
        if x.0 == t {
            assert(remove_token(stash.push(x), t) =~= remove_token(stash, t));
        } else {
            assert(remove_token(stash.push(x), t) =~= remove_token(stash, t).push(x));
        }
    }
}

/// Routing any run of frames appends each token's bodies to its own
/// stashed run: over a whole burst, a token's pending bytes are what it had
/// plus its matching bodies in arrival order, and the other entries keep
/// their order.
pub proof fn lemma_pending_concat(a: Seq<(u64, Seq<u8>)>, b: Seq<(u64, Seq<u8>)>, t: u64)
    ensures
        pending(a + b, t) == pending(a, t) + pending(b, t),
        remove_token(a + b, t) == remove_token(a, t) + remove_token(b, t),
    decreases a.len(),
{
    if a.len() == 0 {
        assert(a + b =~= b);
        assert(pending(a, t) + pending(b, t) =~= pending(b, t));
        assert(remove_token(a, t) + remove_token(b, t) =~= remove_token(b, t));
    } else {
        let tail = a.subrange(1, a.len() as int);
        lemma_pending_concat(tail, b, t);
        assert((a + b).subrange(1, (a + b).len() as int) =~= tail + b);
        assert((a + b)[0] == a[0]);
        assert(pending(a + b, t) =~= pending(a, t) + pending(b, t));
        assert(remove_token(a + b, t) =~= remove_token(a, t) + remove_token(b, t));
    }
}

/// A record as it sits in a cursor buffer: four size bytes, then the body.
pub open spec fn entry_bytes(body: Seq<u8>) -> Seq<u8> {
    u32_be_bytes(body.len() as u32) + body
}

/// The record starting at `p` in a cursor buffer, when its length prefix
/// and body fit.
pub open spec fn record_at(buf: Seq<u8>, p: int) -> Option<Seq<u8>> {
    if p < 0 || p + 4 > buf.len() {
        None
    } else {
        let size = u32_from_be4(buf.subrange(p, p + 4)) as int;
        if p + 4 + size > buf.len() {
            None
        } else {
            Some(buf.subrange(p + 4, p + 4 + size))
        }
    }
}

impl Connection {
    /// A fresh connection: first token 1, generation 0, nothing buffered.
    pub fn new(id: ConnectionId, options: GlobalOptions) -> (r: Connection)
        ensures
            r@ == (ConnV {
                id: id.0,
                next_token: 1,
                num_resets: 0,
                options: options,
                stash: Seq::empty(),
                free: Seq::empty(),
            }),
            inv(r@),
    {
        let r = Connection {
            connection_id: id,
            next_token: 1,
            num_resets: 0,
            options,
            responses: Vec::new(),
            buffers: Vec::new(),
        };
        proof {
            assert(stash_view(r.responses@) =~= Seq::<(u64, Seq<u8>)>::empty());
            assert(free_view(r.buffers@) =~= Seq::<Seq<u8>>::empty());
        }
        r
    }

    /// This connection's identity.
    pub fn id(&self) -> (r: ConnectionId)
        ensures
            r.0 == self@.id,
    {
        self.connection_id
    }

    /// The generation counter: how many times this connection was reset.
    pub fn generation(&self) -> (r: u64)
        ensures
            r == self@.num_resets,
    {
        self.num_resets
    }

    /// How many drained buffers the free list currently holds.
    pub fn free_buffers(&self) -> (r: usize)
        ensures
            r == self@.free.len(),
    {
        proof {
            lemma_free_view_index(self.buffers@);
        }
        self.buffers.len()
    }

    /// The token the next request will get.
    pub fn next_token(&self) -> (r: Token)
        ensures
            r.0 == self@.next_token,
    {
        Token(self.next_token)
    }

    /// Submit a query: mint the next token, and hand back a cursor bound to
    /// the current generation together with the frame to transmit. Fails
    /// only when the serialized request cannot be framed.
    pub fn run_cursor<QueryT: IntoAst>(&mut self, query: QueryT) -> (r: Result<
        (Cursor, Vec<u8>),
        Error,
    >)
        requires
            old(self)@.next_token < u64::MAX,
            inv(old(self)@),
        ensures
            inv(final(self)@),
            ({
                let s0 = old(self)@;
                if request_body_spec(query.ast_v(), s0.options).len() <= u32::MAX {
                    &&& r matches Ok(p)
                    &&& p.0@ == (CursorV {
                        token: s0.next_token,
                        conn_id: s0.id,
                        num_resets: s0.num_resets,
                        buffer: None,
                        position: 0,
                        exhausted: false,
                    })
                    &&& p.1@ == frame_spec(
                        s0.next_token,
                        request_body_spec(query.ast_v(), s0.options),
                    )
                    &&& final(self)@ == (ConnV { next_token: (s0.next_token + 1) as u64, ..s0 })
                } else {
                    &&& r matches Err(e)
                    &&& e.kind_v() matches ErrorKind::Connection(_)
                    &&& final(self)@ == s0
                }
            }),
    {
        let body = request_body(&query.into_ast(), &self.options);
        if body.len() > u32::MAX as usize {
            return Err(Error::from_kind(ErrorKind::Connection("request too large".to_owned())));
        }
        let token = self.next_token;
        let bytes = frame(token, &body);
        self.next_token = self.next_token + 1;
        let cursor = Cursor {
            token: Token(token),
            connection_id: self.connection_id,
            num_resets: self.num_resets,
            buffer: None,
            position: 0,
            exhausted: false,
        };
        Ok((cursor, bytes))
    }

    /// The fixed CONTINUE frame for a cursor's token.
    pub fn continue_request(&self, cursor: &Cursor) -> (r: Vec<u8>)
        ensures
            r@ == u64_be_bytes(cursor@.token) + seq![3u8, 0u8, 0u8, 0u8] + continue_body_spec(),
    {
        continue_frame(cursor.token.0)
    }

    /// Drop every stashed frame and buffered byte and move to the next
    /// generation; every cursor minted before this call is now invalid.
    /// The free list only gains the drained buffers.
    pub fn invalidate(&mut self)
        requires
            old(self)@.num_resets < u64::MAX,
            inv(old(self)@),
        ensures
            inv(final(self)@),
            final(self)@ == (ConnV {
                num_resets: (old(self)@.num_resets + 1) as u64,
                stash: Seq::empty(),
                free: final(self)@.free,
                ..old(self)@
            }),
            free_grows(old(self)@.free, final(self)@.free),
    {
        self.reset_state();
    }

    /// Shared reset path: reclaim everything and bump the generation.
    fn reset_state(&mut self)
        requires
            old(self)@.num_resets < u64::MAX,
            inv(old(self)@),
        ensures
            inv(final(self)@),
            final(self)@ == (ConnV {
                num_resets: (old(self)@.num_resets + 1) as u64,
                stash: Seq::empty(),
                free: final(self)@.free,
                ..old(self)@
            }),
            free_grows(old(self)@.free, final(self)@.free),
    {
        proof {
            lemma_free_grows_refl(free_view(self.buffers@));
        }
        while self.responses.len() > 0
            invariant
                inv(self@),
                free_grows(free_view(old(self).buffers@), free_view(self.buffers@)),
                self.connection_id == old(self).connection_id,
                self.next_token == old(self).next_token,
                self.num_resets == old(self).num_resets,
                self.options == old(self).options,
            decreases self.responses@.len(),
        {
            let mut pair = self.responses.pop().unwrap();
            pair.1.clear();
            let cap = vec_capacity(&pair.1);
            let ghost pre = self.buffers@;
            let ghost gb = pair.1;
            reclaim(&mut self.buffers, pair.1, cap);
            proof {
                lemma_free_view_index(pre);
                lemma_free_view_index(self.buffers@);
                if self.buffers@ == pre.push(gb) {
                    lemma_free_grows_push(
                        free_view(old(self).buffers@),
                        free_view(pre),
                        gb@,
                    );
                    assert(free_view(self.buffers@) =~= free_view(pre).push(gb@));
                }
                assert forall|i: int|
                    0 <= i < free_view(self.buffers@).len() implies #[trigger] free_view(
                    self.buffers@,
                )[i].len() == 0 by {
                    if self.buffers@ == pre.push(gb) {
                        if i < pre.len() {
                            assert(self.buffers@[i] == pre[i]);
                            assert(free_view(pre)[i].len() == 0);
                        } else {
                            assert(self.buffers@[i] == gb);
                        }
                    } else {
                        assert(free_view(pre)[i].len() == 0);
                    }
                }
            }
        }
        proof {
            assert(stash_view(self.responses@) =~= Seq::<(u64, Seq<u8>)>::empty());
        }
        self.num_resets = self.num_resets + 1;
    }
}

pub proof fn lemma_free_view_index(v: Seq<Vec<u8>>)
    ensures
        free_view(v).len() == v.len(),
        forall|i: int| 0 <= i < v.len() ==> free_view(v)[i] == v[i]@,
    decreases v.len(),
{
    if v.len() > 0 {
        lemma_free_view_index(v.drop_last());
        assert(forall|i: int| 0 <= i < v.len() - 1 ==> v.drop_last()[i] == v[i]);
    }
}




/// One advance of a cursor that needs no transport work, or the request to
/// receive a frame first.
#[derive(Debug)]
pub enum Step {
    /// One decoded batch payload and whether it finished the request.
    Batch(Vec<u8>, Complete),
    /// Nothing is buffered for this cursor: receive a frame and feed it to
    /// `accept_frame`, then step again.
    NeedFrame,
}

impl Connection {
    /// Route one received frame: append it, behind its four size bytes, to
    /// the cursor when the token matches, and to the stash otherwise.
    pub fn accept_frame(&mut self, cursor: &mut Cursor, token: Token, body: &[u8]) -> (r: bool)
        requires
            body@.len() <= u32::MAX,
            inv(old(self)@),
        ensures
            inv(final(self)@),
            r == (token.0 == old(cursor)@.token),
            ({
                let s0 = old(self)@;
                let c0 = old(cursor)@;
                if token.0 == c0.token {
                    &&& final(cursor)@ == (CursorV {
                        buffer: Some(
                            (match c0.buffer {
                                Some(b) => b,
                                None => Seq::empty(),
                            }) + entry_bytes(body@),
                        ),
                        position: if c0.buffer is Some {
                            c0.position
                        } else {
                            0
                        },
                        ..c0
                    })
                    &&& final(self)@ == (ConnV {
                        free: if c0.buffer is None && s0.free.len() > 0 {
                            s0.free.drop_last()
                        } else {
                            s0.free
                        },
                        ..s0
                    })
                } else {
                    &&& final(cursor)@ == c0
                    &&& final(self)@ == (ConnV {
                        stash: s0.stash.push((token.0, entry_bytes(body@))),
                        ..s0
                    })
                }
            }),
    {
        if token.0 == cursor.token.0 {
            let taken = cursor.buffer.take();
            let mut buf: Vec<u8>;
            match taken {
                Some(b) => {
                    buf = b;
                },
                None => {
                    cursor.position = 0;
                    proof {
                        lemma_free_view_index(self.buffers@);
                        if self.buffers@.len() > 0 {
                            lemma_free_view_index(self.buffers@.drop_last());
                            assert(free_view(self.buffers@.drop_last()) =~= free_view(
                                self.buffers@,
                            ).drop_last());
                        }
                    }
                    let ghost pre = self.buffers@;
                    match self.buffers.pop() {
                        Some(b) => {
                            proof {
                                assert(free_view(pre)[pre.len() - 1] == pre[pre.len() - 1]@);
                            }
                            buf = b;
                        },
                        None => {
                            buf = Vec::new();
                        },
                    }
                    assert(buf@.len() == 0);
                },
            }
            push_u32_be(body.len() as u32, &mut buf);
            buf.extend_from_slice(body);
            proof {
                assert(buf@ =~= (match old(cursor)@.buffer {
                    Some(b) => b,
                    None => Seq::<u8>::empty(),
                }) + entry_bytes(body@));
            }
            cursor.buffer = Some(buf);
            true
        } else {
            let mut entry: Vec<u8> = Vec::new();
            push_u32_be(body.len() as u32, &mut entry);
            entry.extend_from_slice(body);
            let ghost gpair = (token.0, entry);
            proof {
                lemma_stash_view_push(self.responses@, gpair);
                assert(entry@ =~= entry_bytes(body@));
            }
            self.responses.push((token.0, entry));
            false
        }
    }

    /// Take everything stashed for a token as one buffer, in arrival order.
    fn take_pending(&mut self, token: u64) -> (r: Option<Vec<u8>>)
        requires
            inv(old(self)@),
        ensures
            inv(final(self)@),
            ({
                let s0 = old(self)@;
                if stash_has(s0.stash, token) {
                    &&& r matches Some(v) && v@ == pending(s0.stash, token)
                    &&& final(self)@ == (ConnV { stash: remove_token(s0.stash, token), ..s0 })
                } else {
                    &&& r is None
                    &&& final(self)@ == s0
                }
            }),
    {
        let ghost orig = stash_view(self.responses@);
        let mut found = false;
        let mut i: usize = 0;
        proof {
            lemma_stash_view_index(self.responses@);
        }
        while i < self.responses.len()
            invariant
                i <= self.responses@.len(),
                found <==> exists|k: int|
                    0 <= k < i && (#[trigger] stash_view(self.responses@)[k]).0 == token,
                stash_view(self.responses@).len() == self.responses@.len(),
                forall|k: int|
                    0 <= k < self.responses@.len() ==> #[trigger] stash_view(
                        self.responses@,
                    )[k] == (self.responses@[k].0, self.responses@[k].1@),
            decreases self.responses@.len() - i,
        {
            if self.responses[i].0 == token {
                found = true;
                proof {
                    assert((stash_view(self.responses@)[i as int]).0 == token);
                }
            } else {
                proof {
                    assert((stash_view(self.responses@)[i as int]).0 != token);
                }
            }
            i += 1;
        }
        if !found {
            return None;
        }
        let mut merged: Vec<u8> = Vec::new();
        let mut rest: Vec<(u64, Vec<u8>)> = Vec::new();
        while self.responses.len() > 0
            invariant
                pending(orig, token) == merged@ + pending(stash_view(self.responses@), token),
                remove_token(orig, token) == stash_view(rest@) + remove_token(
                    stash_view(self.responses@),
                    token,
                ),
                free_view(self.buffers@) == old(self)@.free,
                self.connection_id == old(self).connection_id,
                self.next_token == old(self).next_token,
                self.num_resets == old(self).num_resets,
                self.options == old(self).options,
            decreases self.responses@.len(),
        {
            let ghost pre = self.responses@;
            let pair = self.responses.remove(0);
            proof {
                assert(self.responses@ =~= pre.subrange(1, pre.len() as int));
                assert(stash_view(pre) == seq![(pre[0].0, pre[0].1@)] + stash_view(
                    pre.subrange(1, pre.len() as int),
                ));
                assert(stash_view(pre)[0] == (pre[0].0, pre[0].1@));
                assert(stash_view(pre).subrange(1, stash_view(pre).len() as int) =~= stash_view(
                    self.responses@,
                ));
            }
            if pair.0 == token {
                let ghost m0 = merged@;
                let mut bytes = pair.1;
                merged.append(&mut bytes);
                proof {
                    assert(pending(stash_view(pre), token) == pre[0].1@ + pending(
                        stash_view(self.responses@),
                        token,
                    ));
                    assert(merged@ =~= m0 + pre[0].1@);
                    assert(m0 + (pre[0].1@ + pending(stash_view(self.responses@), token)) =~= (m0
                        + pre[0].1@) + pending(stash_view(self.responses@), token));
                    assert(remove_token(stash_view(pre), token) == remove_token(
                        stash_view(self.responses@),
                        token,
                    ));
                }
            } else {
                let ghost r0 = rest@;
                let ghost gp = pair;
                proof {
                    lemma_stash_view_push(r0, gp);
                    assert(remove_token(stash_view(pre), token) == seq![
                        (pre[0].0, pre[0].1@),
                    ] + remove_token(stash_view(self.responses@), token));
                    assert(pending(stash_view(pre), token) == pending(
                        stash_view(self.responses@),
                        token,
                    ));
                }
                rest.push(pair);
                proof {
                    assert(stash_view(rest@) =~= stash_view(r0) + seq![(gp.0, gp.1@)]);
                    assert(stash_view(r0) + (seq![(gp.0, gp.1@)] + remove_token(
                        stash_view(self.responses@),
                        token,
                    )) =~= (stash_view(r0) + seq![(gp.0, gp.1@)]) + remove_token(
                        stash_view(self.responses@),
                        token,
                    ));
                }
            }
        }
        proof {
            assert(stash_view(self.responses@) =~= Seq::<(u64, Seq<u8>)>::empty());
            assert(pending(orig, token) =~= merged@);
            assert(remove_token(orig, token) =~= stash_view(rest@));
        }
        self.responses = rest;
        Some(merged)
    }

    /// Clear a drained buffer and offer it to the free list: the list
    /// either keeps its exact contents or gains this one drained buffer,
    /// and never grows past its bound.
    fn stow_buffer(&mut self, b: Vec<u8>)
        requires
            inv(old(self)@),
        ensures
            inv(final(self)@),
            final(self)@ == (ConnV { free: final(self)@.free, ..old(self)@ }),
            final(self)@.free == old(self)@.free || final(self)@.free == old(
                self,
            )@.free.push(Seq::empty()),
            free_grows(old(self)@.free, final(self)@.free),
            old(self)@.free.len() >= MAX_NUM_BUFFERS ==> final(self)@.free == old(self)@.free,
    {
        let mut b = b;
        b.clear();
        let cap = vec_capacity(&b);
        let ghost pre = self.buffers@;
        let ghost gb = b;
        reclaim(&mut self.buffers, b, cap);
        proof {
            lemma_free_grows_refl(free_view(pre));
            lemma_free_view_index(pre);
            lemma_free_view_index(self.buffers@);
            if self.buffers@ == pre.push(gb) {
                assert(free_view(self.buffers@) =~= free_view(pre).push(gb@));
                assert(gb@ =~= Seq::<u8>::empty());
                lemma_free_grows_push(free_view(pre), free_view(pre), gb@);
            }
            assert forall|i: int|
                0 <= i < free_view(self.buffers@).len() implies #[trigger] free_view(
                self.buffers@,
            )[i].len() == 0 by {
                if self.buffers@ == pre.push(gb) {
                    if i < pre.len() {
                        assert(self.buffers@[i] == pre[i]);
                        assert(free_view(pre)[i].len() == 0);
                    } else {
                        assert(self.buffers@[i] == gb);
                    }
                } else {
                    assert(free_view(pre)[i].len() == 0);
                }
            }
        }
    }
}


impl Connection {
    /// Advance a cursor by one batch using only what is already buffered.
    ///
    /// An exhausted cursor, or one minted before the last reset, fails with
    /// `ReadFromClosedCursor`. With nothing buffered the caller must first
    /// receive a frame. Otherwise one length-prefixed record is decoded:
    /// success batches come back with their payload, a server error report
    /// exhausts the cursor and surfaces as `Server`, a payload of the wrong
    /// shape surfaces as `UnexpectedResponse`, and a malformed record resets
    /// the connection, invalidating every outstanding cursor.
    #[verifier::rlimit(100)]
    #[verifier::spinoff_prover]
    pub fn next_batch_step(&mut self, cursor: &mut Cursor) -> (r: Result<Step, Error>)
        requires
            old(cursor)@.conn_id == old(self)@.id,
            old(self)@.num_resets < u64::MAX,
            inv(old(self)@),
        ensures
            inv(final(self)@),
            final(self)@.id == old(self)@.id,
            final(self)@.next_token == old(self)@.next_token,
            final(self)@.options == old(self)@.options,
            free_grows(old(self)@.free, final(self)@.free),
            ({
                let s0 = old(self)@;
                let c0 = old(cursor)@;
                let invalid = c0.exhausted || c0.num_resets != s0.num_resets;
                let had = c0.buffer is Some;
                let available = had || stash_has(s0.stash, c0.token);
                let buf = if had {
                    c0.buffer->Some_0
                } else {
                    pending(s0.stash, c0.token)
                };
                let pos = if had {
                    c0.position
                } else {
                    0
                };
                let stash1 = if had {
                    s0.stash
                } else {
                    remove_token(s0.stash, c0.token)
                };
                if invalid {
                    &&& final(self)@ == s0
                    &&& final(cursor)@ == c0
                    &&& r matches Err(e) && e.kind_v() == ErrorKind::ReadFromClosedCursor
                } else if !available {
                    &&& final(self)@ == s0
                    &&& final(cursor)@ == c0
                    &&& r matches Ok(st) && st is NeedFrame
                } else {
                    match record_at(buf, pos) {
                        None => {
                            &&& final(self)@ == (ConnV {
                                num_resets: (s0.num_resets + 1) as u64,
                                stash: Seq::empty(),
                                free: final(self)@.free,
                                ..s0
                            })
                            &&& final(cursor)@ == (CursorV { buffer: None, position: 0, ..c0 })
                            &&& r matches Err(e) && e.kind_v() matches ErrorKind::Connection(_)
                        },
                        Some(rec) => {
                            let newpos = pos + 4 + rec.len();
                            match parse_response(rec) {
                                Resp::Atom(pl) => {
                                    &&& final(cursor)@ == (CursorV {
                                        buffer: None,
                                        position: 0,
                                        exhausted: true,
                                        ..c0
                                    })
                                    &&& final(self)@ == (ConnV {
                                        stash: stash1,
                                        free: final(self)@.free,
                                        ..s0
                                    })
                                    &&& r matches Ok(st) && st matches Step::Batch(v, c) && v@
                                        == pl && c == Complete::Yes
                                },
                                Resp::Sequence(pl) => {
                                    &&& final(cursor)@ == (CursorV {
                                        buffer: None,
                                        position: 0,
                                        exhausted: true,
                                        ..c0
                                    })
                                    &&& final(self)@ == (ConnV {
                                        stash: stash1,
                                        free: final(self)@.free,
                                        ..s0
                                    })
                                    &&& r matches Ok(st) && st matches Step::Batch(v, c) && v@
                                        == pl && c == Complete::Yes
                                },
                                Resp::Partial(pl) => {
                                    &&& final(cursor)@ == (if newpos == buf.len() {
                                        CursorV {
                                            buffer: None,
                                            position: 0,
                                            exhausted: false,
                                            ..c0
                                        }
                                    } else {
                                        CursorV {
                                            buffer: Some(buf),
                                            position: newpos,
                                            exhausted: false,
                                            ..c0
                                        }
                                    })
                                    &&& final(self)@ == (ConnV {
                                        stash: stash1,
                                        free: final(self)@.free,
                                        ..s0
                                    })
                                    &&& r matches Ok(st) && st matches Step::Batch(v, c) && v@
                                        == pl && c == Complete::No
                                },
                                Resp::BadShape => {
                                    &&& final(cursor)@ == (CursorV {
                                        buffer: None,
                                        position: 0,
                                        ..c0
                                    })
                                    &&& final(self)@ == (ConnV {
                                        stash: stash1,
                                        free: final(self)@.free,
                                        ..s0
                                    })
                                    &&& r matches Err(e) && e.kind_v()
                                        == ErrorKind::UnexpectedResponse
                                },
                                Resp::Malformed => {
                                    &&& final(self)@ == (ConnV {
                                        num_resets: (s0.num_resets + 1) as u64,
                                        stash: Seq::empty(),
                                        free: final(self)@.free,
                                        ..s0
                                    })
                                    &&& final(cursor)@ == (CursorV {
                                        buffer: None,
                                        position: 0,
                                        ..c0
                                    })
                                    &&& r matches Err(e) && e.kind_v()
                                        matches ErrorKind::Connection(_)
                                },
                                Resp::ServerErr(kind, code, span, msg) => if valid_utf8(msg) {
                                    &&& final(cursor)@ == (CursorV {
                                        buffer: None,
                                        position: 0,
                                        exhausted: true,
                                        ..c0
                                    })
                                    &&& final(self)@ == (ConnV {
                                        stash: stash1,
                                        free: final(self)@.free,
                                        ..s0
                                    })
                                    &&& r matches Err(e) && e.kind_v() matches ErrorKind::Server {
                                        kind: k2,
                                        code: c2,
                                        span: sp2,
                                        message: m2,
                                    } && k2 == kind && c2 as int == code && sp2@ == span
                                        && encode_utf8(m2@) == msg
                                } else {
                                    &&& final(self)@ == (ConnV {
                                        num_resets: (s0.num_resets + 1) as u64,
                                        stash: Seq::empty(),
                                        free: final(self)@.free,
                                        ..s0
                                    })
                                    &&& final(cursor)@ == (CursorV {
                                        buffer: None,
                                        position: 0,
                                        ..c0
                                    })
                                    &&& r matches Err(e) && e.kind_v()
                                        matches ErrorKind::Connection(_)
                                },
                            }
                        },
                    }
                }
            }),
    {
        proof {
            lemma_free_grows_refl(old(self)@.free);
        }
        if cursor.exhausted || cursor.num_resets != self.num_resets {
            return Err(Error::from_kind(ErrorKind::ReadFromClosedCursor));
        }
        if cursor.buffer.is_none() {
            match self.take_pending(cursor.token.0) {
                None => {
                    return Ok(Step::NeedFrame);
                },
                Some(b) => {
                    cursor.position = 0;
                    cursor.buffer = Some(b);
                },
            }
        }
        let p = cursor.position;
        let blen = match &cursor.buffer {
            Some(b) => b.len(),
            None => 0,
        };
        let truncated: bool = {
            if blen < 4 || p > blen - 4 {
                true
            } else {
                let size: u32 = {
                    let b = match &cursor.buffer {
                        Some(b) => b,
                        None => unreached(),
                    };
                    ((b[p] as u32) << 24) | ((b[p + 1] as u32) << 16) | ((b[p + 2] as u32) << 8)
                        | (b[p + 3] as u32)
                };
                proof {
                    let bv = old(cursor)@.buffer is Some;
                    let bb = match cursor@.buffer {
                        Some(b) => b,
                        None => Seq::<u8>::empty(),
                    };
                    assert(bb.subrange(p as int, p as int + 4) =~= seq![
                        bb[p as int],
                        bb[p as int + 1],
                        bb[p as int + 2],
                        bb[p as int + 3],
                    ]);
                }
                (size as usize) > blen - (p + 4)
            }
        };
        if truncated {
            let b = match cursor.buffer.take() {
                Some(b) => b,
                None => unreached(),
            };
            self.stow_buffer(b);
            let ghost free_mid = self@.free;
            cursor.position = 0;
            self.reset_state();
            proof {
                lemma_free_grows_trans(old(self)@.free, free_mid, self@.free);
            }
            return Err(Error::from_kind(
                ErrorKind::Connection("buffer underrun".to_owned()),
            ));
        }
        let size: usize = {
            let b = match &cursor.buffer {
                Some(b) => b,
                None => unreached(),
            };
            (((b[p] as u32) << 24) | ((b[p + 1] as u32) << 16) | ((b[p + 2] as u32) << 8) | (b[p
                + 3] as u32)) as usize
        };
        let outcome = {
            let b = match &cursor.buffer {
                Some(b) => b,
                None => unreached(),
            };
            proof {
                assert(b@.subrange(p as int, p as int + 4) =~= seq![
                    b@[p as int],
                    b@[p as int + 1],
                    b@[p as int + 2],
                    b@[p as int + 3],
                ]);
            }
            let rec = vstd::slice::slice_subrange(b.as_slice(), p + 4, p + 4 + size);
            extract_from_response(rec)
        };
        let newpos = p + 4 + size;
        match outcome {
            Ok((payload, complete)) => {
                cursor.position = newpos;
                if complete == Complete::Yes {
                    cursor.exhausted = true;
                }
                if cursor.exhausted || newpos == blen {
                    let b = match cursor.buffer.take() {
                        Some(b) => b,
                        None => unreached(),
                    };
                    self.stow_buffer(b);
                    cursor.position = 0;
                }
                Ok(Step::Batch(payload, complete))
            },
            Err(e) => {
                let b = match cursor.buffer.take() {
                    Some(b) => b,
                    None => unreached(),
                };
                self.stow_buffer(b);
                let ghost free_mid = self@.free;
                cursor.position = 0;
                let is_server = match e.kind() {
                    ErrorKind::Server { .. } => true,
                    _ => false,
                };
                let is_conn = match e.kind() {
                    ErrorKind::Connection(_) => true,
                    _ => false,
                };
                if is_server {
                    cursor.exhausted = true;
                } else if is_conn {
                    self.reset_state();
                    proof {
                        lemma_free_grows_trans(old(self)@.free, free_mid, self@.free);
                    }
                }
                Err(e)
            },
        }
    }
}

/// Decide the outcome of the single-result convenience: no batch before the
/// deadline is a timeout, and anything but one atom that exhausted the
/// cursor is an unexpected response.
pub fn expect_single_atom(outcome: Option<(Vec<u8>, Complete)>, exhausted: bool) -> (r: Result<
    Vec<u8>,
    Error,
>)
    ensures
        match outcome {
            None => r matches Err(e) && e.kind_v() == ErrorKind::IteratorTimeout,
            Some((payload, complete)) => if complete == Complete::Yes && exhausted {
                r matches Ok(v) && v@ == payload@
            } else {
                r matches Err(e) && e.kind_v() == ErrorKind::UnexpectedResponse
            },
        },
{
    match outcome {
        None => Err(Error::from_kind(ErrorKind::IteratorTimeout)),
        Some((payload, complete)) => {
            if complete == Complete::Yes && exhausted {
                Ok(payload)
            } else {
                Err(Error::from_kind(ErrorKind::UnexpectedResponse))
            }
        },
    }
}

/// Decide one fetch of the batch iterator: a batch streams on, no batch
/// after the cursor finished ends the iteration, and no batch on a live
/// cursor means the wait ran out.
pub fn iter_batch_outcome(outcome: Option<(Vec<u8>, Complete)>, exhausted: bool) -> (r: Result<
    Option<(Vec<u8>, Complete)>,
    Error,
>)
    ensures
        ({
            match outcome {
                Some(batch) => r matches Ok(o) && o matches Some(b) && b.0@ == batch.0@ && b.1
                    == batch.1,
                None => if exhausted {
                    r matches Ok(o) && o is None
                } else {
                    r matches Err(e) && e.kind_v() == ErrorKind::IteratorTimeout
                },
            }
        }),
{
    match outcome {
        Some(batch) => Ok(Some(batch)),
        None => {
            if exhausted {
                Ok(None)
            } else {
                Err(Error::from_kind(ErrorKind::IteratorTimeout))
            }
        },
    }
}

/// The token a start request mints.
pub open spec fn minted_token(c: ConnV) -> u64 {
    c.next_token
}

/// The connection state after a start request.
pub open spec fn after_start(c: ConnV) -> ConnV {
    ConnV { next_token: (c.next_token + 1) as u64, ..c }
}

/// Successive start requests on one connection mint strictly increasing
/// tokens, and a fresh connection mints 1 first.
pub proof fn lemma_tokens_strictly_increase(c: ConnV)
    requires
        c.next_token < u64::MAX,
    ensures
        minted_token(c) < minted_token(after_start(c)),
{
}

/// The free list never exceeds its bound, on any state the connection's
/// operations can produce.
pub proof fn lemma_free_list_bounded(c: ConnV)
    requires
        inv(c),
    ensures
        c.free.len() <= MAX_NUM_BUFFERS,
{
}

/// A cursor minted before a reset does not match the connection's
/// generation afterwards, so its next advance fails.
pub proof fn lemma_reset_invalidates(cur: CursorV, before: ConnV, after: ConnV)
    requires
        cur.num_resets == before.num_resets,
        before.num_resets < u64::MAX,
        after.num_resets == before.num_resets + 1,
    ensures
        cur.num_resets != after.num_resets,
{
}

} // verus!
