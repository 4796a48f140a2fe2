//! Bookkeeping for the caller-facing socket event loop.
//!
//! Callers ask to be told when a socket becomes readable or writable.  For
//! each watched socket the loop keeps how many read and write callbacks are
//! registered and the identifier of the one monitoring task that watches the
//! socket; the task itself is the host's (it sleeps and polls), and it is
//! started when the first callback for a socket arrives and told to stop
//! when the last one is removed.

use vstd::prelude::*;

verus! {

/// One watched socket: its descriptor, how many read and write callbacks
/// are registered for it, and the identifier of its monitoring task.
#[derive(Debug)]
pub struct SocketWatch {
    pub sockfd: i32,
    pub readers: u64,
    pub writers: u64,
    pub monitor_id: String,
}

/// Some watch in `s` is for this socket.
pub open spec fn watch_has(s: Seq<SocketWatch>, sockfd: i32) -> bool {
    exists|i: int| 0 <= i < s.len() && s[i].sockfd == sockfd
}

/// The position of the watch for this socket.
pub open spec fn watch_index(s: Seq<SocketWatch>, sockfd: i32) -> int {
    choose|i: int| 0 <= i < s.len() && s[i].sockfd == sockfd
}

/// No two watches are for the same socket.
pub open spec fn watches_wf(s: Seq<SocketWatch>) -> bool {
    forall|i: int, j: int| 0 <= i < j < s.len() ==> s[i].sockfd != s[j].sockfd
}

/// Replacing a watch with one for the same socket keeps the watches
/// duplicate-free and watches the same sockets.
proof fn lemma_update_same_fd(s: Seq<SocketWatch>, i: int, w: SocketWatch)
    requires
        watches_wf(s),
        0 <= i < s.len(),
        w.sockfd == s[i].sockfd,
    ensures
        watches_wf(s.update(i, w)),
        forall|fd: i32| watch_has(s.update(i, w), fd) == watch_has(s, fd),
{
    let t = s.update(i, w);
    assert forall|a: int, b: int| 0 <= a < b < t.len() implies t[a].sockfd != t[b].sockfd by {
        assert(t[a].sockfd == s[a].sockfd);
        assert(t[b].sockfd == s[b].sockfd);
    }
    assert forall|fd: i32| watch_has(t, fd) == watch_has(s, fd) by {
        assert forall|a: int| 0 <= a < s.len() implies t[a].sockfd == s[a].sockfd by {}
        if watch_has(s, fd) {
            let a = choose|a: int| 0 <= a < s.len() && s[a].sockfd == fd;
            assert(t[a].sockfd == fd);
        }
        if watch_has(t, fd) {
            let a = choose|a: int| 0 <= a < t.len() && t[a].sockfd == fd;
            assert(s[a].sockfd == fd);
        }
    }
}

/// Removing the watch at `at` (the one for `sockfd`) from duplicate-free
/// watches leaves them duplicate-free, with no watch for that socket and
/// every other socket watched as before.
proof fn lemma_remove_watch(s: Seq<SocketWatch>, at: int, sockfd: i32)
    requires
        watches_wf(s),
        0 <= at < s.len(),
        s[at].sockfd == sockfd,
    ensures
        watches_wf(s.remove(at)),
        !watch_has(s.remove(at), sockfd),
        forall|fd: i32| fd != sockfd ==> watch_has(s.remove(at), fd) == watch_has(s, fd),
{
    let t = s.remove(at);
    assert forall|i: int| 0 <= i < t.len() implies t[i].sockfd != sockfd by {
        if i < at {
            assert(t[i] == s[i]);
        } else {
            assert(t[i] == s[i + 1]);
        }
    }
    assert forall|i: int, j: int| 0 <= i < j < t.len() implies t[i].sockfd != t[j].sockfd by {
        let si: int = if i < at { i } else { i + 1 };
        let sj: int = if j < at { j } else { j + 1 };
        assert(t[i] == s[si]);
        assert(t[j] == s[sj]);
    }
    assert forall|fd: i32| fd != sockfd && watch_has(s, fd) implies watch_has(t, fd) by {
        let i = choose|i: int| 0 <= i < s.len() && s[i].sockfd == fd;
        if i < at {
            assert(t[i] == s[i]);
        } else {
            assert(t[i - 1] == s[i]);
        }
    }
    assert forall|fd: i32| fd != sockfd && watch_has(t, fd) implies watch_has(s, fd) by {
        let i = choose|i: int| 0 <= i < t.len() && t[i].sockfd == fd;
        if i < at {
            assert(t[i] == s[i]);
        } else {
            assert(t[i] == s[i + 1]);
        }
    }
}

/// Relies on uuid::Uuid::new_v4 and Uuid's Display rendering, which is the
/// hyphenated form: 36 characters for any UUID.
#[verifier::external_body]
fn fresh_monitor_id() -> (r: String)
    ensures
        r@.len() == 36,
{
    uuid::Uuid::new_v4().to_string()
}

/// The socket event loop's registry of watched sockets.
pub struct AsyncEventLoop {
    watches: Vec<SocketWatch>,
}

impl View for AsyncEventLoop {
    type V = Seq<SocketWatch>;

    closed spec fn view(&self) -> Seq<SocketWatch> {
        self.watches@
    }
}

impl AsyncEventLoop {
    pub fn new() -> (r: AsyncEventLoop)
        ensures
            r@ == Seq::<SocketWatch>::empty(),
    {
        AsyncEventLoop { watches: Vec::new() }
    }

    fn find(&self, sockfd: i32) -> (r: Option<usize>)
        requires
            watches_wf(self@),
        ensures
            r matches Some(i) ==> i < self@.len() && self@[i as int].sockfd == sockfd && i as int
                == watch_index(self@, sockfd),
            r is None ==> !watch_has(self@, sockfd),
    {
        let n = self.watches.len();
        let mut k: usize = 0;
        while k < n
            invariant
                watches_wf(self@),
                n == self@.len(),
                0 <= k <= n,
                forall|i: int| 0 <= i < k ==> self@[i].sockfd != sockfd,
            decreases n - k,
        {
            if self.watches[k].sockfd == sockfd {
                proof {
                    let at = watch_index(self@, sockfd);
                    assert(self@[at].sockfd == sockfd);
                    assert(at == k as int);
                }
                return Some(k);
            }
            k = k + 1;
        }
        None
    }

    /// How many read and write callbacks are registered for a socket.
    pub fn callback_counts(&self, sockfd: i32) -> (r: (u64, u64))
        requires
            watches_wf(self@),
        ensures
            watch_has(self@, sockfd) ==> r == (
                self@[watch_index(self@, sockfd)].readers,
                self@[watch_index(self@, sockfd)].writers,
            ),
            !watch_has(self@, sockfd) ==> r == (0u64, 0u64),
    {
        match self.find(sockfd) {
            Some(i) => (self.watches[i].readers, self.watches[i].writers),
            None => (0, 0),
        }
    }

    /// What the monitoring task for a socket should keep watching: whether
    /// any read callbacks and any write callbacks remain.  Both false means
    /// the task should stop.
    pub fn monitor_interest(&self, sockfd: i32) -> (r: (bool, bool))
        requires
            watches_wf(self@),
        ensures
            watch_has(self@, sockfd) ==> r == (
                self@[watch_index(self@, sockfd)].readers > 0,
                self@[watch_index(self@, sockfd)].writers > 0,
            ),
            !watch_has(self@, sockfd) ==> r == (false, false),
    {
        match self.find(sockfd) {
            Some(i) => (self.watches[i].readers > 0, self.watches[i].writers > 0),
            None => (false, false),
        }
    }

    /// Registers one read callback for a socket.  The first callback on an
    /// unwatched socket creates its watch and names the monitoring task the
    /// host must start; the returned identifier is that task's name.
    pub fn add_reader(&mut self, sockfd: i32) -> (started: Option<String>)
        requires
            watches_wf(old(self)@),
            watch_has(old(self)@, sockfd) ==> old(self)@[watch_index(
                old(self)@,
                sockfd,
            )].readers < u64::MAX,
        ensures
            watches_wf(final(self)@),
            !watch_has(old(self)@, sockfd) ==> (started matches Some(id) && id@.len() == 36
                && final(self)@ == old(self)@.push(
                SocketWatch { sockfd, readers: 1u64, writers: 0u64, monitor_id: id },
            )),
            watch_has(old(self)@, sockfd) ==> started is None && final(self)@ == old(
                self,
            )@.update(
                watch_index(old(self)@, sockfd),
                ({
                    let w = old(self)@[watch_index(old(self)@, sockfd)];
                    SocketWatch {
                        sockfd: w.sockfd,
                        readers: (w.readers + 1) as u64,
                        writers: w.writers,
                        monitor_id: w.monitor_id,
                    }
                }),
            ),
    {
        match self.find(sockfd) {
            Some(i) => {
                let w = &mut self.watches[i];
                w.readers = w.readers + 1;
                proof {
                    lemma_update_same_fd(
                        old(self)@,
                        i as int,
                        self@[watch_index(old(self)@, sockfd)],
                    );
                }
                None
            },
            None => {
                let id = fresh_monitor_id();
                let stored = id.clone();
                self.watches.push(
                    SocketWatch { sockfd, readers: 1, writers: 0, monitor_id: stored },
                );
                proof {
                    assert forall|a: int, b: int|
                        0 <= a < b < self@.len() implies self@[a].sockfd != self@[b].sockfd by {
                        if b < self@.len() - 1 {
                            assert(self@[a] == old(self)@[a]);
                            assert(self@[b] == old(self)@[b]);
                        } else {
                            assert(self@[a] == old(self)@[a]);
                            assert(!watch_has(old(self)@, sockfd));
                        }
                    }
                }
                Some(id)
            },
        }
    }

    /// Registers one write callback for a socket, as `add_reader` does for
    /// read callbacks.
    pub fn add_writer(&mut self, sockfd: i32) -> (started: Option<String>)
        requires
            watches_wf(old(self)@),
            watch_has(old(self)@, sockfd) ==> old(self)@[watch_index(
                old(self)@,
                sockfd,
            )].writers < u64::MAX,
        ensures
            watches_wf(final(self)@),
            !watch_has(old(self)@, sockfd) ==> (started matches Some(id) && id@.len() == 36
                && final(self)@ == old(self)@.push(
                SocketWatch { sockfd, readers: 0u64, writers: 1u64, monitor_id: id },
            )),
            watch_has(old(self)@, sockfd) ==> started is None && final(self)@ == old(
                self,
            )@.update(
                watch_index(old(self)@, sockfd),
                ({
                    let w = old(self)@[watch_index(old(self)@, sockfd)];
                    SocketWatch {
                        sockfd: w.sockfd,
                        readers: w.readers,
                        writers: (w.writers + 1) as u64,
                        monitor_id: w.monitor_id,
                    }
                }),
            ),
    {
        match self.find(sockfd) {
            Some(i) => {
                let w = &mut self.watches[i];
                w.writers = w.writers + 1;
                proof {
                    lemma_update_same_fd(
                        old(self)@,
                        i as int,
                        self@[watch_index(old(self)@, sockfd)],
                    );
                }
                None
            },
            None => {
                let id = fresh_monitor_id();
                let stored = id.clone();
                self.watches.push(
                    SocketWatch { sockfd, readers: 0, writers: 1, monitor_id: stored },
                );
                proof {
                    assert forall|a: int, b: int|
                        0 <= a < b < self@.len() implies self@[a].sockfd != self@[b].sockfd by {
                        if b < self@.len() - 1 {
                            assert(self@[a] == old(self)@[a]);
                            assert(self@[b] == old(self)@[b]);
                        } else {
                            assert(self@[a] == old(self)@[a]);
                            assert(!watch_has(old(self)@, sockfd));
                        }
                    }
                }
                Some(id)
            },
        }
    }

    /// Removes every read callback for a socket.  When no write callbacks
    /// remain either, the socket's watch is dropped and the name of the
    /// monitoring task the host must stop is returned.
    pub fn remove_reader(&mut self, sockfd: i32) -> (stopped: Option<String>)
        requires
            watches_wf(old(self)@),
        ensures
            watches_wf(final(self)@),
            !watch_has(old(self)@, sockfd) ==> stopped is None && final(self)@ == old(self)@,
            watch_has(old(self)@, sockfd) ==> ({
                let at = watch_index(old(self)@, sockfd);
                let w = old(self)@[at];
                if w.writers == 0 {
                    stopped == Some(w.monitor_id) && final(self)@ == old(self)@.remove(at)
                        && !watch_has(final(self)@, sockfd)
                } else {
                    stopped is None && final(self)@ == old(self)@.update(
                        at,
                        SocketWatch {
                            sockfd: w.sockfd,
                            readers: 0u64,
                            writers: w.writers,
                            monitor_id: w.monitor_id,
                        },
                    )
                }
            }),
    {
        match self.find(sockfd) {
            Some(i) => {
                if self.watches[i].writers == 0 {
                    proof {
                        lemma_remove_watch(old(self)@, i as int, sockfd);
                    }
                    let w = self.watches.remove(i);
                    Some(w.monitor_id)
                } else {
                    let w = &mut self.watches[i];
                    w.readers = 0;
                    proof {
                        lemma_update_same_fd(
                            old(self)@,
                            i as int,
                            self@[watch_index(old(self)@, sockfd)],
                        );
                    }
                    None
                }
            },
            None => None,
        }
    }

    /// Removes every write callback for a socket, as `remove_reader` does
    /// for read callbacks.
    pub fn remove_writer(&mut self, sockfd: i32) -> (stopped: Option<String>)
        requires
            watches_wf(old(self)@),
        ensures
            watches_wf(final(self)@),
            !watch_has(old(self)@, sockfd) ==> stopped is None && final(self)@ == old(self)@,
            watch_has(old(self)@, sockfd) ==> ({
                let at = watch_index(old(self)@, sockfd);
                let w = old(self)@[at];
                if w.readers == 0 {
                    stopped == Some(w.monitor_id) && final(self)@ == old(self)@.remove(at)
                        && !watch_has(final(self)@, sockfd)
                } else {
                    stopped is None && final(self)@ == old(self)@.update(
                        at,
                        SocketWatch {
                            sockfd: w.sockfd,
                            readers: w.readers,
                            writers: 0u64,
                            monitor_id: w.monitor_id,
                        },
                    )
                }
            }),
    {
        match self.find(sockfd) {
            Some(i) => {
                if self.watches[i].readers == 0 {
                    proof {
                        lemma_remove_watch(old(self)@, i as int, sockfd);
                    }
                    let w = self.watches.remove(i);
                    Some(w.monitor_id)
                } else {
                    let w = &mut self.watches[i];
                    w.writers = 0;
                    proof {
                        lemma_update_same_fd(
                            old(self)@,
                            i as int,
                            self@[watch_index(old(self)@, sockfd)],
                        );
                    }
                    None
                }
            },
            None => None,
        }
    }
}

} // verus!
