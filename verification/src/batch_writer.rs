//! The write-side batcher: serializes points one after another into a
//! growing buffer and seals the buffer whenever it reaches the line-count
//! or byte-size threshold, so that a write is sent as a sequence of
//! size-bounded buffers of whole lines.

use vstd::prelude::*;
use vstd::seq_lib::lemma_flatten_concat;

use crate::error::InfluxDBError;
use crate::options::TimestampPrecision;
use crate::point::spec_point_line;
use crate::point::ToPoint;
use crate::tag_name::TagMap;

verus! {

/// A buffer is sealed once it holds this many lines.
pub const MAX_LINES: usize = 10000;

/// A buffer is sealed once it holds this many bytes.  The check runs only
/// after a whole point has been appended, so a sealed buffer may exceed
/// this by the size of its last point.
pub const MAX_BYTES: usize = 10 * 1024 * 1024;

/// True when `parts` groups `lines` in order into exactly `bufs`: each
/// buffer is the concatenation of one group of consecutive whole lines,
/// and no group is empty or holds more than `MAX_LINES` lines.
pub open spec fn is_sealing(
    parts: Seq<Seq<Seq<u8>>>,
    lines: Seq<Seq<u8>>,
    bufs: Seq<Seq<u8>>,
) -> bool {
    &&& bufs.len() == parts.len()
    &&& forall|i: int| 0 <= i < parts.len() ==> (#[trigger] bufs[i]) == parts[i].flatten()
    &&& forall|i: int| 0 <= i < parts.len() ==> 1 <= (#[trigger] parts[i]).len() <= MAX_LINES
    &&& parts.flatten() == lines
}

/// True when the buffers are some in-order grouping of the lines into
/// whole-line, line-count-bounded chunks: no buffer boundary splits a
/// line, and no buffer exceeds the line-count threshold.
pub open spec fn seals_into(lines: Seq<Seq<u8>>, bufs: Seq<Seq<u8>>) -> bool {
    exists|parts: Seq<Seq<Seq<u8>>>| is_sealing(parts, lines, bufs)
}

/// The serialized lines of a sequence of points, under one precision and
/// default tag set.
pub open spec fn spec_points_lines<T: ToPoint>(
    points: Seq<T>,
    precision: TimestampPrecision,
    default_tags: Seq<(Seq<char>, Seq<char>)>,
) -> Seq<Seq<u8>> {
    points.map_values(|p: T| spec_point_line(p.spec_to_point(), precision, default_tags))
}

/// Partitions a sequence of serialized points into size-bounded buffers.
/// Single-threaded and stateful across calls: one batcher per write
/// operation.
pub struct Batcher {
    buffers: Vec<Vec<u8>>,
    current_buffer: Vec<u8>,
    current_lines: usize,
    precision: TimestampPrecision,
    default_tags: TagMap,
    parts: Ghost<Seq<Seq<Seq<u8>>>>,
    cur_part: Ghost<Seq<Seq<u8>>>,
}

impl Batcher {
    /// The serialized lines of every point added so far, in order.
    pub closed spec fn lines(&self) -> Seq<Seq<u8>> {
        self.parts@.flatten() + self.cur_part@
    }

    /// The precision the batcher serializes timestamps at.
    pub closed spec fn precision(&self) -> TimestampPrecision {
        self.precision
    }

    /// The default tags emitted before each point's own tags.
    pub closed spec fn default_tags(&self) -> Seq<(Seq<char>, Seq<char>)> {
        self.default_tags@
    }

    /// Well-formedness: the sealed buffers hold exactly the sealed line
    /// groups, none empty or over the line threshold, and the open buffer
    /// holds exactly the still-unsealed lines, strictly under both
    /// thresholds.
    pub closed spec fn wf(&self) -> bool {
        &&& self.buffers@.len() == self.parts@.len()
        &&& forall|i: int|
            0 <= i < self.parts@.len() ==> (#[trigger] self.buffers@[i])@ == self.parts@[
                i
            ].flatten()
        &&& forall|i: int|
            0 <= i < self.parts@.len() ==> 1 <= (#[trigger] self.parts@[i]).len() <= MAX_LINES
        &&& self.current_buffer@ == self.cur_part@.flatten()
        &&& self.current_lines == self.cur_part@.len()
        &&& self.cur_part@.len() < MAX_LINES
        &&& self.current_buffer@.len() < MAX_BYTES
        &&& forall|i: int|
            0 <= i < self.cur_part@.len() ==> (#[trigger] self.cur_part@[i]).len() > 0
    }

    /// A fresh batcher with no lines, serializing at the given precision
    /// with the given default tags.
    pub fn new(precision: TimestampPrecision, default_tags: &TagMap) -> (r: Batcher)
        ensures
            r.wf(),
            r.lines() == Seq::<Seq<u8>>::empty(),
            r.precision() == precision,
            r.default_tags() == default_tags@,
    {
        let r = Batcher {
            buffers: Vec::new(),
            current_buffer: Vec::new(),
            current_lines: 0,
            precision,
            default_tags: default_tags.clone(),
            parts: Ghost(Seq::empty()),
            cur_part: Ghost(Seq::empty()),
        };
        proof {
            assert(r.parts@.flatten() =~= Seq::<Seq<u8>>::empty());
            assert(r.lines() =~= Seq::<Seq<u8>>::empty());
        }
        r
    }

    /// Serializes one point into the open buffer, then seals the buffer
    /// if it has reached the line-count or byte-size threshold.  The
    /// point's line is appended to the batcher's line sequence; nothing
    /// else changes.
    pub fn add_point<T: ToPoint>(&mut self, point: T) -> (r: Result<(), InfluxDBError>)
        requires
            old(self).wf(),
        ensures
            final(self).wf(),
            r is Ok,
            final(self).lines() == old(self).lines().push(
                spec_point_line(
                    point.spec_to_point(),
                    old(self).precision(),
                    old(self).default_tags(),
                ),
            ),
            final(self).precision() == old(self).precision(),
            final(self).default_tags() == old(self).default_tags(),
    {
        let ghost line = spec_point_line(
            point.spec_to_point(),
            self.precision,
            self.default_tags@,
        );
        let p = point.to_point();
        p.serialize(&mut self.current_buffer, self.precision, &self.default_tags);
        proof {
            self.cur_part@ = self.cur_part@.push(line);
            self.cur_part@.drop_last().lemma_flatten_push(line);
            assert(self.cur_part@.drop_last() =~= old(self).cur_part@);
            assert(self.current_buffer@ == self.cur_part@.flatten());
            assert(line.len() > 0);
        }
        self.current_lines = self.current_lines + 1;
        if self.current_lines >= MAX_LINES || self.current_buffer.len() >= MAX_BYTES {
            let mut new_buffer: Vec<u8> = Vec::new();
            std::mem::swap(&mut new_buffer, &mut self.current_buffer);
            self.buffers.push(new_buffer);
            self.current_lines = 0;
            proof {
                let sealed = self.cur_part@;
                self.parts@ = self.parts@.push(sealed);
                self.cur_part@ = Seq::empty();
                self.parts@.drop_last().lemma_flatten_push(sealed);
                assert(self.parts@.drop_last() =~= old(self).parts@);
                assert(self.lines() =~= old(self).lines().push(line));
            }
        } else {
            proof {
                assert(self.lines() =~= old(self).lines().push(line));
            }
        }
        Ok(())
    }

    /// Serializes each point of a sequence in order, as `add_point` does.
    pub fn add_points<T: ToPoint>(&mut self, points: Vec<T>) -> (r: Result<(), InfluxDBError>)
        requires
            old(self).wf(),
        ensures
            final(self).wf(),
            r is Ok,
            final(self).lines() == old(self).lines() + spec_points_lines(
                points@,
                old(self).precision(),
                old(self).default_tags(),
            ),
            final(self).precision() == old(self).precision(),
            final(self).default_tags() == old(self).default_tags(),
    {
        let ghost all = spec_points_lines(points@, self.precision, self.default_tags@);
        let ghost lines0 = self.lines();
        let mut rest = points;
        let n = rest.len();
        let mut i: usize = 0;
        while i < n
            invariant
                n == all.len(),
                i <= n,
                self.wf(),
                self.precision() == old(self).precision(),
                self.default_tags() == old(self).default_tags(),
                lines0 == old(self).lines(),
                spec_points_lines(rest@, self.precision(), self.default_tags()) == all.subrange(
                    i as int,
                    n as int,
                ),
                self.lines() == lines0 + all.subrange(0, i as int),
            decreases n - i,
        {
            proof {
                assert(spec_points_lines(rest@, self.precision(), self.default_tags()).len()
                    == rest@.len());
                assert(spec_points_lines(rest@, self.precision(), self.default_tags())[0] == all[
                    i as int]);
            }
            let ghost r0 = rest@;
            let p = rest.remove(0);
            proof {
                assert(rest@ =~= r0.drop_first());
                assert forall|j: int| 0 <= j < rest@.len() implies spec_points_lines(
                    rest@,
                    self.precision(),
                    self.default_tags(),
                )[j] == all[i as int + 1 + j] by {
                    assert(rest@[j] == r0[j + 1]);
                    assert(spec_points_lines(r0, self.precision(), self.default_tags())[j + 1]
                        == all.subrange(i as int, n as int)[j + 1]);
                };
                assert(spec_points_lines(rest@, self.precision(), self.default_tags())
                    =~= all.subrange(i as int + 1, n as int));
                assert(spec_point_line(p.spec_to_point(), self.precision(), self.default_tags())
                    == all[i as int]);
            }
            let r = self.add_point(p);
            proof {
                assert(all.subrange(0, i as int + 1) =~= all.subrange(0, i as int).push(
                    all[i as int],
                ));
                assert(self.lines() =~= lines0 + all.subrange(0, i as int + 1));
            }
            i += 1;
        }
        proof {
            assert(all.subrange(0, n as int) =~= all);
        }
        Ok(())
    }

    /// Seals any non-empty open buffer and hands out the sealed buffers
    /// in order.  Concatenating them reproduces exactly the serialization
    /// of the points in their original order; each buffer is a grouping
    /// of whole lines, at most `MAX_LINES` of them.
    pub fn finalize(self) -> (r: Vec<Vec<u8>>)
        requires
            self.wf(),
        ensures
            seals_into(self.lines(), r@.map_values(|b: Vec<u8>| b@)),
            r@.map_values(|b: Vec<u8>| b@).flatten() == self.lines().flatten(),
    {
        let ghost lines = self.lines();
        let Batcher { mut buffers, current_buffer, current_lines, precision, default_tags, parts, cur_part } =
            self;
        let ghost mut final_parts = parts@;
        if !current_buffer.is_empty() {
            proof {
                assert(cur_part@.len() >= 1) by {
                    if cur_part@.len() == 0 {
                        assert(cur_part@.flatten() =~= Seq::<u8>::empty());
                    }
                }
                final_parts = parts@.push(cur_part@);
            }
            buffers.push(current_buffer);
        } else {
            proof {
                assert(cur_part@.len() == 0) by {
                    if cur_part@.len() > 0 {
                        cur_part@.lemma_flatten_and_flatten_alt_are_equivalent();
                        cur_part@.lemma_flatten_length_ge_single_element_length(0);
                    }
                }
                assert(lines =~= parts@.flatten());
            }
        }
        proof {
            let bufs = buffers@.map_values(|b: Vec<u8>| b@);
            if cur_part@.len() >= 1 {
                parts@.lemma_flatten_push(cur_part@);
                assert(final_parts.flatten() =~= lines);
            } else {
                assert(final_parts.flatten() =~= lines);
            }
            assert forall|i: int| 0 <= i < final_parts.len() implies (#[trigger] bufs[i])
                == final_parts[i].flatten() by {
                if i < parts@.len() {
                } else {
                    assert(final_parts[i] == cur_part@);
                }
            };
            assert(is_sealing(final_parts, lines, bufs));
            lemma_concat_grouped(final_parts, bufs);
        }
        buffers
    }
}

/// Concatenating buffers that each concatenate a group of lines yields
/// the concatenation of all the lines.
proof fn lemma_concat_grouped(parts: Seq<Seq<Seq<u8>>>, bufs: Seq<Seq<u8>>)
    requires
        bufs.len() == parts.len(),
        forall|i: int| 0 <= i < parts.len() ==> (#[trigger] bufs[i]) == parts[i].flatten(),
    ensures
        bufs.flatten() == parts.flatten().flatten(),
    decreases parts.len(),
{
    if parts.len() == 0 {
        assert(bufs.flatten() =~= Seq::<u8>::empty());
        assert(parts.flatten() =~= Seq::<Seq<u8>>::empty());
        assert(parts.flatten().flatten() =~= Seq::<u8>::empty());
    } else {
        assert forall|i: int| 0 <= i < parts.drop_first().len() implies (#[trigger] bufs.drop_first()[
            i]) == parts.drop_first()[i].flatten() by {
            assert(bufs.drop_first()[i] == bufs[i + 1]);
            assert(parts.drop_first()[i] == parts[i + 1]);
        };
        lemma_concat_grouped(parts.drop_first(), bufs.drop_first());
        assert(bufs.flatten() == bufs[0] + bufs.drop_first().flatten());
        assert(parts.flatten() == parts[0] + parts.drop_first().flatten());
        lemma_flatten_concat(parts[0], parts.drop_first().flatten());
        assert(bufs.flatten() =~= parts.flatten().flatten());
    }
}

} // verus!
