//! Host-side backend state and the decisions it makes: which movie a fetch
//! request resolves to, the fixed viewport reported to the engine, and the
//! tick counter with its heartbeat. The engine itself, and all I/O around
//! these decisions, live outside the library.

use vstd::prelude::*;

verus! {

/// Whether `p` occurs contiguously anywhere in `s`.
pub open spec fn has_subrange(s: Seq<u8>, p: Seq<u8>) -> bool {
    exists|i: int| 0 <= i <= s.len() - p.len() && #[trigger] s.subrange(i, i + p.len()) == p
}

/// Byte-level substring search, the routing test a fetched URL goes
/// through.
pub fn contains_bytes(s: &Vec<u8>, p: &Vec<u8>) -> (r: bool)
    ensures
        r == has_subrange(s@, p@),
{
    let n = s.len();
    let m = p.len();
    if m > n {
        return false;
    }
    let mut i: usize = 0;
    while i <= n - m
        invariant
            m <= n,
            n == s@.len(),
            m == p@.len(),
            i <= n - m + 1,
            forall|k: int| 0 <= k < i ==> #[trigger] s@.subrange(k, k + p@.len() as int) != p@,
        decreases n - m - i + 1,
    {
        let mut j: usize = 0;
        while j < m && s[i + j] == p[j]
            invariant
                m <= n,
                n == s@.len(),
                m == p@.len(),
                i + m <= n,
                j <= m,
                forall|t: int| 0 <= t < j ==> s@[i + t] == p@[t],
            decreases m - j,
        {
            j += 1;
        }
        if j == m {
            proof {
                assert(s@.subrange(i as int, i as int + p@.len() as int) =~= p@);
            }
            return true;
        }
        proof {
            assert(s@.subrange(i as int, i as int + p@.len() as int)[j as int] == s@[i + j]);
        }
        i += 1;
    }
    false
}

/// The target marker whose records the console sink always keeps: the
/// script interpreter's.
pub open spec fn script_marker() -> Seq<u8> {
    seq![0x61u8, 0x76u8, 0x6du8]
}

/// Which records the console sink keeps: severity levels are numbered from
/// 1 (errors) upward toward chattier ones, and everything at the
/// informational level 3 or below passes, as does any record whose target
/// carries the script interpreter's marker.
pub open spec fn spec_should_log(level: u32, target: Seq<u8>) -> bool {
    level <= 3 || has_subrange(target, script_marker())
}

/// The console sink's filter decision for one record.
pub fn should_log(level: u32, target: &Vec<u8>) -> (r: bool)
    ensures
        r == spec_should_log(level, target@),
{
    if level <= 3 {
        return true;
    }
    let marker: Vec<u8> = vec![0x61, 0x76, 0x6d];
    proof {
        assert(marker@ =~= script_marker());
    }
    contains_bytes(target, &marker)
}

/// The movie name a fetch request is routed on.
pub open spec fn test_movie_name() -> Seq<u8> {
    seq![0x74u8, 0x65u8, 0x73u8, 0x74u8, 0x2eu8, 0x73u8, 0x77u8, 0x66u8]
}

/// The bytes of the movie embedded for that name: a minimal one-frame,
/// uncompressed stream.
pub open spec fn embedded_movie_bytes() -> Seq<u8> {
    seq![
        0x46u8, 0x57u8, 0x53u8, 0x06u8, 0x30u8, 0x00u8, 0x00u8, 0x00u8, 0x78u8, 0x00u8, 0x05u8,
        0x5fu8, 0x00u8, 0x00u8, 0x0fu8, 0xa0u8, 0x00u8, 0x00u8, 0x0cu8, 0x01u8, 0x00u8, 0x43u8,
        0x02u8, 0xffu8, 0xffu8, 0xffu8, 0x10u8, 0x03u8, 0x96u8, 0x0bu8, 0x00u8, 0x00u8, 0x48u8,
        0x65u8, 0x6cu8, 0x6cu8, 0x6fu8, 0x20u8, 0x33u8, 0x44u8, 0x53u8, 0x00u8, 0x26u8, 0x00u8,
        0x40u8, 0x00u8, 0x00u8, 0x00u8,
    ]
}

/// Builds the movie name as bytes.
pub fn test_movie_name_vec() -> (r: Vec<u8>)
    ensures
        r@ == test_movie_name(),
{
    let v: Vec<u8> = vec![0x74, 0x65, 0x73, 0x74, 0x2e, 0x73, 0x77, 0x66];
    proof {
        assert(v@ =~= test_movie_name());
    }
    v
}

/// Builds the embedded movie as bytes.
pub fn embedded_movie() -> (r: Vec<u8>)
    ensures
        r@ == embedded_movie_bytes(),
{
    let v: Vec<u8> = vec![
        0x46, 0x57, 0x53, 0x06, 0x30, 0x00, 0x00, 0x00, 0x78, 0x00, 0x05, 0x5f, 0x00, 0x00, 0x0f,
        0xa0, 0x00, 0x00, 0x0c, 0x01, 0x00, 0x43, 0x02, 0xff, 0xff, 0xff, 0x10, 0x03, 0x96, 0x0b,
        0x00, 0x00, 0x48, 0x65, 0x6c, 0x6c, 0x6f, 0x20, 0x33, 0x44, 0x53, 0x00, 0x26, 0x00, 0x40,
        0x00, 0x00, 0x00,
    ];
    proof {
        assert(v@ =~= embedded_movie_bytes());
    }
    v
}

/// The host backend's own state: only the tick counter; everything else it
/// answers with is fixed.
pub struct ThreeDSBackend {
    pub tick_count: u32,
}

impl ThreeDSBackend {
    /// A fresh backend, before the first tick.
    pub fn new() -> (r: Self)
        ensures
            r.tick_count == 0,
    {
        ThreeDSBackend { tick_count: 0 }
    }

    /// The fixed viewport the host renders into, in pixels.
    pub fn viewport_dimensions(&self) -> (r: (u32, u32))
        ensures
            r.0 == 400,
            r.1 == 240,
    {
        (400, 240)
    }

    /// Which movie a fetch of `url` resolves to: the embedded movie when
    /// the URL carries the movie's name, nothing otherwise.
    pub fn fetch_movie(&self, url: &Vec<u8>) -> (r: Option<Vec<u8>>)
        ensures
            r is Some <==> has_subrange(url@, test_movie_name()),
            match r {
                Option::None => !has_subrange(url@, test_movie_name()),
                Option::Some(m) => m@ == embedded_movie_bytes(),
            },
    {
        let name = test_movie_name_vec();
        if contains_bytes(url, &name) {
            Option::Some(embedded_movie())
        } else {
            Option::None
        }
    }

    /// Advances the tick counter, wrapping at its width, and says whether
    /// this tick is a heartbeat (every sixtieth, the first included).
    pub fn tick(&mut self) -> (heartbeat: bool)
        ensures
            final(self).tick_count as int == (old(self).tick_count as int + 1) % 0x1_0000_0000,
            heartbeat == (old(self).tick_count % 60 == 0),
    {
        let t = self.tick_count;
        self.tick_count = if t == u32::MAX {
            0
        } else {
            t + 1
        };
        t % 60 == 0
    }
}

} // verus!
