//! What it is for a kind of value to have a binary form, and the binary
//! form of a list of such values.

use crate::binary::buffer::Pool;
use crate::binary::{length_bytes, lemma_length_round_trip, write_length, LengthSize};
use crate::module::parser::{
    agrees, parsed_length, Error, ErrorKind, MissingModuleVersionNumberError, Parsed, Section,
    Wrapper,
};
use vstd::prelude::*;

verus! {

/// A binary form for values of one kind: how a value is written, how it is
/// read, and that reading undoes writing.
pub trait Format {
    /// The values that have the form.
    type T;

    /// What a value stands for.
    type V;

    /// What `value` stands for.
    spec fn model(value: Self::T) -> Self::V;

    /// Whether `value` can stand in a module at all.
    spec fn valid(value: Self::V) -> bool;

    /// Whether every length that is written for `value` fits the size.
    spec fn fits(size: LengthSize, value: Self::V) -> bool;

    /// The bytes of `value`.
    spec fn written(size: LengthSize, value: Self::V) -> Seq<u8>;

    /// What reading a value from the start of `bytes` comes to, for the
    /// value that is the `index`-th of its list.
    spec fn parsed(size: LengthSize, bytes: Seq<u8>, index: nat) -> Parsed<Self::V>;

    /// A value that was written is read back, whatever follows it.
    proof fn round_trip(size: LengthSize, value: Self::V, index: nat, rest: Seq<u8>)
        requires
            Self::valid(value),
            Self::fits(size, value),
        ensures
            Self::parsed(size, Self::written(size, value) + rest, index) == (Parsed::Done {
                value,
                consumed: Self::written(size, value).len(),
            }),
    ;

    /// No value is written as nothing.
    proof fn written_some(size: LengthSize, value: Self::V)
        ensures
            Self::written(size, value).len() > 0,
    ;

    /// Appends the bytes of `value` to `out`, unless a length does not fit.
    fn write(value: &Self::T, size: LengthSize, out: &mut Vec<u8>) -> (written: bool)
        ensures
            Self::valid(Self::model(*value)),
            written == Self::fits(size, Self::model(*value)),
            written ==> final(out)@ == old(out)@ + Self::written(size, Self::model(*value)),
    ;

    /// Reads a value, the `index`-th of its list.
    fn read(source: &mut Wrapper<'_>, index: usize) -> (value: Result<Self::T, Error>)
        ensures
            agrees(
                value,
                |read: Self::T| Self::model(read),
                Self::parsed(old(source).size(), old(source).remaining(), index as nat),
                *old(source),
                *final(source),
            ),
            value matches Ok(read) ==> Self::valid(Self::model(read)),
    ;
}

/// What the values of a list stand for.
pub open spec fn models<F: Format>(values: Seq<F::T>) -> Seq<F::V> {
    values.map_values(|value: F::T| F::model(value))
}

pub open spec fn all_valid<F: Format>(values: Seq<F::V>) -> bool {
    forall|i: int| 0 <= i < values.len() ==> F::valid(#[trigger] values[i])
}

pub open spec fn all_fit<F: Format>(size: LengthSize, values: Seq<F::V>) -> bool {
    forall|i: int| 0 <= i < values.len() ==> F::fits(size, #[trigger] values[i])
}

/// The bytes of the values of a list, one after the other.
pub open spec fn written_many<F: Format>(size: LengthSize, values: Seq<F::V>) -> Seq<u8>
    decreases values.len(),
{
    if values.len() == 0 {
        Seq::empty()
    } else {
        F::written(size, values[0]) + written_many::<F>(size, values.drop_first())
    }
}

/// An outcome for a list that follows the values `before`, which took
/// `skipped` bytes.
pub open spec fn following<V>(before: Seq<V>, skipped: nat, parsed: Parsed<Seq<V>>) -> Parsed<
    Seq<V>,
> {
    match parsed {
        Parsed::Done { value, consumed } => Parsed::Done {
            value: before + value,
            consumed: skipped + consumed,
        },
        Parsed::Failed { kind, offset } => Parsed::Failed { kind, offset: skipped + offset },
    }
}

/// What reading `count` values one after the other comes to, the first of
/// them being the `index`-th of its list.
pub open spec fn parsed_many<F: Format>(
    size: LengthSize,
    bytes: Seq<u8>,
    count: nat,
    index: nat,
) -> Parsed<Seq<F::V>>
    decreases count,
{
    if count == 0 {
        Parsed::Done { value: Seq::empty(), consumed: 0 }
    } else {
        match F::parsed(size, bytes, index) {
            Parsed::Failed { kind, offset } => Parsed::Failed { kind, offset },
            Parsed::Done { value, consumed } => following(
                seq![value],
                consumed,
                parsed_many::<F>(size, bytes.skip(consumed as int), (count - 1) as nat, index + 1),
            ),
        }
    }
}

/// The bytes of a list are the bytes of its first values followed by the
/// bytes of the others.
pub proof fn lemma_written_many_push<F: Format>(size: LengthSize, values: Seq<F::V>, last: F::V)
    ensures
        written_many::<F>(size, values.push(last)) == written_many::<F>(size, values) + F::written(
            size,
            last,
        ),
    decreases values.len(),
{
    let all = values.push(last);
    if values.len() == 0 {
        assert(all.drop_first() =~= Seq::<F::V>::empty());
        assert(written_many::<F>(size, all.drop_first()) =~= Seq::<u8>::empty());
        assert(written_many::<F>(size, all) =~= F::written(size, last));
        assert(written_many::<F>(size, values) + F::written(size, last) =~= F::written(
            size,
            last,
        ));
    } else {
        assert(all.drop_first() =~= values.drop_first().push(last));
        lemma_written_many_push::<F>(size, values.drop_first(), last);
        assert(written_many::<F>(size, all) =~= written_many::<F>(size, values) + F::written(
            size,
            last,
        ));
    }
}

/// A list that was written is read back, whatever follows it.
pub proof fn lemma_many_round_trip<F: Format>(
    size: LengthSize,
    values: Seq<F::V>,
    index: nat,
    rest: Seq<u8>,
)
    requires
        all_valid::<F>(values),
        all_fit::<F>(size, values),
    ensures
        parsed_many::<F>(size, written_many::<F>(size, values) + rest, values.len(), index) == (
        Parsed::Done { value: values, consumed: written_many::<F>(size, values).len() }),
    decreases values.len(),
{
    if values.len() == 0 {
        assert(values =~= Seq::<F::V>::empty());
    } else {
        let first = F::written(size, values[0]);
        let others = written_many::<F>(size, values.drop_first());
        let all = written_many::<F>(size, values) + rest;
        assert(all =~= first + (others + rest));
        F::round_trip(size, values[0], index, others + rest);
        assert(all.skip(first.len() as int) =~= others + rest);
        lemma_many_round_trip::<F>(size, values.drop_first(), index + 1, rest);
        assert(seq![values[0]] + values.drop_first() =~= values);
        assert(F::parsed(size, all, index) == (Parsed::Done {
            value: values[0],
            consumed: first.len(),
        }));
        assert(parsed_many::<F>(
            size,
            all.skip(first.len() as int),
            (values.len() - 1) as nat,
            index + 1,
        ) == (Parsed::Done { value: values.drop_first(), consumed: others.len() }));
    }
}

/// Reading a list goes on after its first values as it began.
proof fn lemma_parsed_many_step<F: Format>(
    size: LengthSize,
    bytes: Seq<u8>,
    count: nat,
    index: nat,
    before: Seq<F::V>,
    skipped: nat,
)
    requires
        count > 0,
        skipped <= bytes.len(),
    ensures
        match F::parsed(size, bytes.skip(skipped as int), index) {
            Parsed::Failed { kind, offset } => following(
                before,
                skipped,
                parsed_many::<F>(size, bytes.skip(skipped as int), count, index),
            ) == (Parsed::Failed::<Seq<F::V>> { kind, offset: skipped + offset }),
            Parsed::Done { value, consumed } => skipped + consumed <= bytes.len() ==> following(
                before,
                skipped,
                parsed_many::<F>(size, bytes.skip(skipped as int), count, index),
            ) == following(
                before.push(value),
                skipped + consumed,
                parsed_many::<F>(
                    size,
                    bytes.skip((skipped + consumed) as int),
                    (count - 1) as nat,
                    index + 1,
                ),
            ),
        },
{
    match F::parsed(size, bytes.skip(skipped as int), index) {
        Parsed::Failed { kind, offset } => {},
        Parsed::Done { value, consumed } => {
            if skipped + consumed <= bytes.len() {
                assert(bytes.skip(skipped as int).skip(consumed as int) =~= bytes.skip(
                    (skipped + consumed) as int,
                ));
                let next = parsed_many::<F>(
                    size,
                    bytes.skip((skipped + consumed) as int),
                    (count - 1) as nat,
                    index + 1,
                );
                match next {
                    Parsed::Done { value: others, consumed: more } => {
                        assert(before + (seq![value] + others) =~= before.push(value) + others);
                    },
                    Parsed::Failed { .. } => {},
                }
            }
        },
    }
}

/// Appends the bytes of the values of a list to `out`, unless a length does
/// not fit.
pub fn write_many<F: Format>(values: &Vec<F::T>, size: LengthSize, out: &mut Vec<u8>) -> (written:
    bool)
    ensures
        all_valid::<F>(models::<F>(values@)),
        written == all_fit::<F>(size, models::<F>(values@)),
        written ==> final(out)@ == old(out)@ + written_many::<F>(size, models::<F>(values@)),
{
    let ghost all = models::<F>(values@);
    let mut fit = true;
    let mut index: usize = 0;
    while index < values.len()
        invariant
            index <= values@.len(),
            all == models::<F>(values@),
            forall|i: int| 0 <= i < index ==> F::valid(#[trigger] all[i]),
            fit == (forall|i: int| 0 <= i < index ==> F::fits(size, #[trigger] all[i])),
            fit ==> out@ == old(out)@ + written_many::<F>(size, all.take(index as int)),
        decreases values@.len() - index,
    {
        let ghost done = all.take(index as int);
        let one = F::write(&values[index], size, out);
        proof {
            assert(all[index as int] == F::model(values@[index as int]));
            assert(all.take(index + 1) =~= done.push(all[index as int]));
            lemma_written_many_push::<F>(size, done, all[index as int]);
            if fit && one {
                assert(out@ =~= old(out)@ + written_many::<F>(size, all.take(index + 1)));
            }
        }
        fit = fit && one;
        index += 1;
    }
    proof {
        assert(all.take(index as int) =~= all);
    }
    fit
}

/// Reads `count` values one after the other.
pub fn read_many<F: Format>(source: &mut Wrapper<'_>, count: usize) -> (values: Result<
    Vec<F::T>,
    Error,
>)
    ensures
        agrees(
            values,
            |read: Vec<F::T>| models::<F>(read@),
            parsed_many::<F>(old(source).size(), old(source).remaining(), count as nat, 0),
            *old(source),
            *final(source),
        ),
        values matches Ok(read) ==> all_valid::<F>(models::<F>(read@)),
{
    let ghost size = source.size();
    let ghost bytes = source.remaining();
    let ghost start = source.position();
    let ghost whole = parsed_many::<F>(size, bytes, count as nat, 0);
    let available = source.available();
    let mut values: Vec<F::T> = Vec::new();
    let mut index: usize = 0;
    proof {
        assert(bytes.skip(0) =~= bytes);
        assert(models::<F>(values@) =~= Seq::<F::V>::empty());
        let next = parsed_many::<F>(size, bytes, count as nat, 0);
        match next {
            Parsed::Done { value, consumed } => {
                assert(Seq::<F::V>::empty() + value =~= value);
            },
            Parsed::Failed { .. } => {},
        }
    }
    while index < count
        invariant
            index <= count,
            values@.len() == index,
            source.source() == old(source).source(),
            source.limit() == old(source).limit(),
            source.size() == size,
            size == old(source).size(),
            bytes == old(source).remaining(),
            start == old(source).position(),
            start <= source.position() <= source.limit(),
            source.limit() <= source.source().len(),
            all_valid::<F>(models::<F>(values@)),
            whole == parsed_many::<F>(size, bytes, count as nat, 0),
            whole == following(
                models::<F>(values@),
                (source.position() - start) as nat,
                parsed_many::<F>(
                    size,
                    bytes.skip(source.position() - start),
                    (count - index) as nat,
                    index as nat,
                ),
            ),
        decreases count - index,
    {
        let ghost skipped = (source.position() - start) as nat;
        let ghost before = models::<F>(values@);
        proof {
            assert(source.remaining() =~= bytes.skip(skipped as int));
            lemma_parsed_many_step::<F>(
                size,
                bytes,
                (count - index) as nat,
                index as nat,
                before,
                skipped,
            );
        }
        match F::read(source, index) {
            Ok(value) => {
                let _ = source.available();
                values.push(value);
                proof {
                    assert(models::<F>(values@) =~= before.push(F::model(value)));
                }
            },
            Err(error) => {
                return Err(error);
            },
        }
        index += 1;
    }
    proof {
        assert(source.remaining() =~= bytes.skip(source.position() - start));
    }
    Ok(values)
}

} // verus!

verus! {

/// The form of an index or a count: a length of the module's size.
pub struct IndexFormat;

impl Format for IndexFormat {
    type T = usize;

    type V = usize;

    open spec fn model(value: usize) -> usize {
        value
    }

    open spec fn valid(value: usize) -> bool {
        true
    }

    open spec fn fits(size: LengthSize, value: usize) -> bool {
        size.holds(value as nat)
    }

    open spec fn written(size: LengthSize, value: usize) -> Seq<u8> {
        length_bytes(size, value as nat)
    }

    open spec fn parsed(size: LengthSize, bytes: Seq<u8>, index: nat) -> Parsed<usize> {
        parsed_length(size, bytes, ErrorKind::UnexpectedEnd)
    }

    proof fn round_trip(size: LengthSize, value: usize, index: nat, rest: Seq<u8>) {
        lemma_length_round_trip(size, value as nat, rest);
    }

    proof fn written_some(size: LengthSize, value: usize) {
        crate::binary::lemma_length_bytes_len(size, value as nat);
    }

    fn write(value: &usize, size: LengthSize, out: &mut Vec<u8>) -> (written: bool) {
        write_length(size, *value, out)
    }

    fn read(source: &mut Wrapper<'_>, index: usize) -> (value: Result<usize, Error>) {
        source.read_length(ErrorKind::UnexpectedEnd)
    }
}

/// The form of one number of a module's version: a length of the module's
/// size, whose absence is an error that names the number's position.
pub struct VersionNumberFormat;

impl Format for VersionNumberFormat {
    type T = usize;

    type V = usize;

    open spec fn model(value: usize) -> usize {
        value
    }

    open spec fn valid(value: usize) -> bool {
        true
    }

    open spec fn fits(size: LengthSize, value: usize) -> bool {
        size.holds(value as nat)
    }

    open spec fn written(size: LengthSize, value: usize) -> Seq<u8> {
        length_bytes(size, value as nat)
    }

    open spec fn parsed(size: LengthSize, bytes: Seq<u8>, index: nat) -> Parsed<usize> {
        parsed_length(
            size,
            bytes,
            ErrorKind::MissingModuleVersionNumber(
                MissingModuleVersionNumberError { index: index as usize },
            ),
        )
    }

    proof fn round_trip(size: LengthSize, value: usize, index: nat, rest: Seq<u8>) {
        lemma_length_round_trip(size, value as nat, rest);
    }

    proof fn written_some(size: LengthSize, value: usize) {
        crate::binary::lemma_length_bytes_len(size, value as nat);
    }

    fn write(value: &usize, size: LengthSize, out: &mut Vec<u8>) -> (written: bool) {
        write_length(size, *value, out)
    }

    fn read(source: &mut Wrapper<'_>, index: usize) -> (value: Result<usize, Error>) {
        source.read_length(
            ErrorKind::MissingModuleVersionNumber(MissingModuleVersionNumberError { index }),
        )
    }
}

/// The bytes of a list with its count before it.
#[verifier::opaque]
pub open spec fn written_counted<F: Format>(size: LengthSize, values: Seq<F::V>) -> Seq<u8> {
    length_bytes(size, values.len()) + written_many::<F>(size, values)
}

/// Whether a list and its count fit the size.
#[verifier::opaque]
pub open spec fn counted_fit<F: Format>(size: LengthSize, values: Seq<F::V>) -> bool {
    size.holds(values.len()) && all_fit::<F>(size, values)
}

/// What reading a count and then as many values comes to. Where the count
/// is not there the error is of the kind `missing`.
#[verifier::opaque]
pub open spec fn parsed_counted<F: Format>(size: LengthSize, bytes: Seq<u8>, missing: ErrorKind)
    -> Parsed<Seq<F::V>> {
    match parsed_length(size, bytes, missing) {
        Parsed::Failed { kind, offset } => Parsed::Failed { kind, offset },
        Parsed::Done { value: count, consumed } => parsed_many::<F>(
            size,
            bytes.skip(consumed as int),
            count as nat,
            0,
        ).after(consumed),
    }
}

/// A list that was written with its count is read back, whatever follows.
pub proof fn lemma_counted_round_trip<F: Format>(
    size: LengthSize,
    values: Seq<F::V>,
    missing: ErrorKind,
    rest: Seq<u8>,
)
    requires
        all_valid::<F>(values),
        counted_fit::<F>(size, values),
    ensures
        parsed_counted::<F>(size, written_counted::<F>(size, values) + rest, missing) == (
        Parsed::Done { value: values, consumed: written_counted::<F>(size, values).len() }),
{
    reveal(written_counted);
    reveal(counted_fit);
    reveal(parsed_counted);
    let count = length_bytes(size, values.len());
    let items = written_many::<F>(size, values);
    let all = written_counted::<F>(size, values) + rest;
    assert(all =~= count + (items + rest));
    lemma_length_round_trip(size, values.len(), items + rest);
    assert(all.skip(count.len() as int) =~= items + rest);
    lemma_many_round_trip::<F>(size, values, 0, rest);
}

/// Appends the count of a list and then its values to `out`, unless a
/// length does not fit.
pub fn write_counted<F: Format>(values: &Vec<F::T>, size: LengthSize, out: &mut Vec<u8>) -> (written:
    bool)
    ensures
        all_valid::<F>(models::<F>(values@)),
        written == counted_fit::<F>(size, models::<F>(values@)),
        written ==> final(out)@ == old(out)@ + written_counted::<F>(size, models::<F>(values@)),
{
    reveal(written_counted);
    reveal(counted_fit);
    let ghost before = out@;
    let counted = write_length(size, values.len(), out);
    let listed = write_many::<F>(values, size, out);
    proof {
        if counted && listed {
            assert(out@ =~= before + written_counted::<F>(size, models::<F>(values@)));
        }
    }
    counted && listed
}

/// Reads a count and then as many values.
pub fn read_counted<F: Format>(source: &mut Wrapper<'_>, missing: ErrorKind) -> (values: Result<
    Vec<F::T>,
    Error,
>)
    ensures
        agrees(
            values,
            |read: Vec<F::T>| models::<F>(read@),
            parsed_counted::<F>(old(source).size(), old(source).remaining(), missing),
            *old(source),
            *final(source),
        ),
        values matches Ok(read) ==> all_valid::<F>(models::<F>(read@)),
{
    reveal(parsed_counted);
    let ghost bytes = source.remaining();
    let ghost size = source.size();
    let ghost width = size.width();
    let count = source.read_length(missing)?;
    let values = read_many::<F>(source, count);
    proof {
        if let Parsed::Done { value, consumed } = parsed_many::<F>(
            size,
            bytes.skip(width as int),
            count as nat,
            0,
        ) {
            assert(bytes.skip(width as int).skip(consumed as int) =~= bytes.skip(
                (width + consumed) as int,
            ));
        }
    }
    values
}

} // verus!

verus! {

/// The bytes of a section: for a list that is not empty the byte size of
/// its values, their count, and the values; for an empty one a zero.
#[verifier::opaque]
pub open spec fn written_section<F: Format>(size: LengthSize, values: Seq<F::V>) -> Seq<u8> {
    if values.len() == 0 {
        length_bytes(size, 0)
    } else {
        length_bytes(size, written_many::<F>(size, values).len()) + length_bytes(
            size,
            values.len(),
        ) + written_many::<F>(size, values)
    }
}

/// Whether a section fits the size: its values, their count and their byte
/// size.
#[verifier::opaque]
pub open spec fn section_fits<F: Format>(size: LengthSize, values: Seq<F::V>) -> bool {
    values.len() == 0 || {
        &&& all_fit::<F>(size, values)
        &&& size.holds(values.len())
        &&& size.holds(written_many::<F>(size, values).len())
    }
}

/// What reading a section comes to. The values are read from the bytes that
/// the byte size gives, and what these bytes hold behind the values is
/// passed over.
#[verifier::opaque]
pub open spec fn parsed_section<F: Format>(size: LengthSize, bytes: Seq<u8>, section: Section)
    -> Parsed<Seq<F::V>> {
    match parsed_length(size, bytes, ErrorKind::MissingSize(section)) {
        Parsed::Failed { kind, offset } => Parsed::Failed { kind, offset },
        Parsed::Done { value: byte_size, consumed: first } => if byte_size == 0 {
            Parsed::Done { value: Seq::empty(), consumed: first }
        } else {
            match parsed_length(size, bytes.skip(first as int), ErrorKind::MissingCount(section)) {
                Parsed::Failed { kind, offset } => Parsed::Failed { kind, offset: first + offset },
                Parsed::Done { value: count, consumed: second } => {
                    let start = first + second;
                    if bytes.len() - start < byte_size {
                        Parsed::Failed { kind: ErrorKind::UnexpectedEnd, offset: start }
                    } else {
                        match parsed_many::<F>(
                            size,
                            bytes.skip(start as int).take(byte_size as int),
                            count as nat,
                            0,
                        ) {
                            Parsed::Failed { kind, offset } => Parsed::Failed {
                                kind,
                                offset: start + offset,
                            },
                            Parsed::Done { value, .. } => Parsed::Done {
                                value,
                                consumed: (start + byte_size) as nat,
                            },
                        }
                    }
                },
            }
        },
    }
}

/// The bytes of a list that is not empty are not empty.
pub proof fn lemma_written_many_some<F: Format>(size: LengthSize, values: Seq<F::V>)
    requires
        values.len() > 0,
    ensures
        written_many::<F>(size, values).len() > 0,
{
    F::written_some(size, values[0]);
}

/// A section that was written is read back, whatever follows it.
pub proof fn lemma_section_round_trip<F: Format>(
    size: LengthSize,
    values: Seq<F::V>,
    section: Section,
    rest: Seq<u8>,
)
    requires
        all_valid::<F>(values),
        section_fits::<F>(size, values),
    ensures
        parsed_section::<F>(size, written_section::<F>(size, values) + rest, section) == (
        Parsed::Done { value: values, consumed: written_section::<F>(size, values).len() }),
{
    reveal(written_section);
    reveal(section_fits);
    reveal(parsed_section);
    let all = written_section::<F>(size, values) + rest;
    if values.len() == 0 {
        lemma_length_round_trip(size, 0, rest);
        assert(values =~= Seq::<F::V>::empty());
    } else {
        let items = written_many::<F>(size, values);
        let first = length_bytes(size, items.len());
        let second = length_bytes(size, values.len());
        lemma_written_many_some::<F>(size, values);
        assert(all =~= first + (second + items + rest));
        lemma_length_round_trip(size, items.len(), second + items + rest);
        assert(all.skip(first.len() as int) =~= second + (items + rest));
        lemma_length_round_trip(size, values.len(), items + rest);
        let start = first.len() + second.len();
        assert(all.skip(start as int).take(items.len() as int) =~= items + Seq::<u8>::empty());
        lemma_many_round_trip::<F>(size, values, 0, Seq::<u8>::empty());
    }
}

/// Appends a section to `out`, unless a length does not fit. The values
/// are first written to a buffer rented from `pool`.
pub fn write_section<F: Format>(
    values: &Vec<F::T>,
    size: LengthSize,
    out: &mut Vec<u8>,
    pool: &Pool,
) -> (written: bool)
    ensures
        all_valid::<F>(models::<F>(values@)),
        written == section_fits::<F>(size, models::<F>(values@)),
        written ==> final(out)@ == old(out)@ + written_section::<F>(size, models::<F>(values@)),
{
    reveal(written_section);
    reveal(section_fits);
    let ghost before = out@;
    let ghost all = models::<F>(values@);
    let mut buffer = pool.rent_with_capacity(32);
    let listed = write_many::<F>(values, size, buffer.as_vec_mut());
    if values.len() == 0 {
        return write_length(size, 0, out);
    }
    if !listed {
        return false;
    }
    proof {
        assert(buffer@ =~= written_many::<F>(size, all));
    }
    if !write_length(size, buffer.as_vec().len(), out) {
        return false;
    }
    if !write_length(size, values.len(), out) {
        return false;
    }
    append_bytes(out, buffer.as_vec().as_slice());
    proof {
        assert(out@ =~= before + written_section::<F>(size, all));
    }
    true
}

/// Appends bytes to `out`.
pub fn append_bytes(out: &mut Vec<u8>, bytes: &[u8])
    ensures
        final(out)@ == old(out)@ + bytes@,
{
    let mut index: usize = 0;
    while index < bytes.len()
        invariant
            index <= bytes@.len(),
            out@ == old(out)@ + bytes@.take(index as int),
        decreases bytes@.len() - index,
    {
        out.push(bytes[index]);
        index += 1;
        assert(out@ =~= old(out)@ + bytes@.take(index as int));
    }
    assert(bytes@.take(index as int) =~= bytes@);
}

/// Reads a section.
pub fn read_section<F: Format>(source: &mut Wrapper<'_>, section: Section) -> (values: Result<
    Vec<F::T>,
    Error,
>)
    ensures
        agrees(
            values,
            |read: Vec<F::T>| models::<F>(read@),
            parsed_section::<F>(old(source).size(), old(source).remaining(), section),
            *old(source),
            *final(source),
        ),
        values matches Ok(read) ==> all_valid::<F>(models::<F>(read@)),
{
    reveal(parsed_section);
    let ghost size = source.size();
    let ghost bytes = source.remaining();
    let ghost width = size.width();
    let byte_size = source.read_length(ErrorKind::MissingSize(section))?;
    if byte_size == 0 {
        let empty: Vec<F::T> = Vec::new();
        proof {
            assert(models::<F>(empty@) =~= Seq::<F::V>::empty());
        }
        return Ok(empty);
    }
    let count = source.read_length(ErrorKind::MissingCount(section))?;
    proof {
        assert(bytes.skip(width as int).skip(width as int) =~= bytes.skip((width + width) as int));
    }
    let mut inner = match source.parse_buffer(byte_size) {
        Ok(inner) => inner,
        Err(error) => {
            return Err(error);
        },
    };
    proof {
        assert(source.remaining() =~= bytes.skip((width + width + byte_size) as int));
    }
    let values = read_many::<F>(&mut inner, count)?;
    Ok(values)
}

} // verus!
