//! What the starter hands to the program that it starts.

use vstd::prelude::*;

verus! {

/// The number of bytes of the block that holds the arguments
pub const ARGS_SIZE: usize = 1024;

/// The arguments as sequences of bytes
pub open spec fn bytes_of(args: Seq<Vec<u8>>) -> Seq<Seq<u8>> {
    Seq::new(args.len(), |i: int| args[i]@)
}

/// The arguments one after the other, each of them followed by a NUL byte
pub open spec fn packed(args: Seq<Seq<u8>>) -> Seq<u8>
    decreases args.len(),
{
    if args.len() == 0 {
        Seq::empty()
    } else {
        packed(args.drop_last()) + args.last() + seq![0u8]
    }
}

/// The packed arguments grow with every argument
pub proof fn lemma_packed_grows(args: Seq<Seq<u8>>, n: int)
    requires
        0 <= n <= args.len(),
    ensures
        packed(args.take(n)).len() <= packed(args).len(),
    decreases args.len(),
{
    if n == args.len() {
        assert(args.take(n) =~= args);
    } else {
        lemma_packed_grows(args.drop_last(), n);
        assert(args.drop_last().take(n) =~= args.take(n));
    }
}

/// Tells whether the arguments, each of them followed by a NUL byte, fit into a block of
/// [`ARGS_SIZE`] bytes
pub fn args_fit(args: &Vec<Vec<u8>>) -> (fit: bool)
    ensures
        fit == (packed(bytes_of(args@)).len() <= ARGS_SIZE),
{
    let ghost all = bytes_of(args@);
    let mut total: usize = 0;
    let mut n: usize = 0;
    while n < args.len()
        invariant
            all == bytes_of(args@),
            0 <= n <= args.len(),
            total == packed(all.take(n as int)).len(),
            total <= ARGS_SIZE,
        decreases args.len() - n,
    {
        let len = args[n].len();
        proof {
            assert(all.take(n + 1).drop_last() =~= all.take(n as int));
            assert(all.take(n + 1).last() == args[n as int]@);
            lemma_packed_grows(all, n + 1);
        }
        if len >= ARGS_SIZE || total + len + 1 > ARGS_SIZE {
            return false;
        }
        total = total + len + 1;
        n += 1;
    }
    proof {
        assert(all.take(args.len() as int) =~= all);
    }
    true
}

/// Stores the arguments null-terminated into a block of [`ARGS_SIZE`] bytes and returns the
/// block and, for each argument, the place in the block at which it starts
///
/// The arguments have to fit into the block.
pub fn pack_args(args: &Vec<Vec<u8>>) -> (res: (Vec<u8>, Vec<usize>))
    requires
        packed(bytes_of(args@)).len() <= ARGS_SIZE,
    ensures
        res.0@.len() == ARGS_SIZE,
        res.0@.take(packed(bytes_of(args@)).len() as int) == packed(bytes_of(args@)),
        forall|i: int| packed(bytes_of(args@)).len() <= i < ARGS_SIZE ==> res.0@[i] == 0,
        res.1@.len() == args@.len(),
        forall|i: int|
            0 <= i < args@.len() ==> res.1@[i] == packed(bytes_of(args@).take(i)).len(),
{
    let ghost all = bytes_of(args@);
    let mut bytes: Vec<u8> = Vec::new();
    let mut starts: Vec<usize> = Vec::new();
    let mut n: usize = 0;
    while n < args.len()
        invariant
            all == bytes_of(args@),
            0 <= n <= args.len(),
            bytes@ == packed(all.take(n as int)),
            starts@.len() == n,
            forall|i: int| 0 <= i < n ==> starts@[i] == packed(all.take(i)).len(),
        decreases args.len() - n,
    {
        let arg = &args[n];
        starts.push(bytes.len());
        let ghost before = bytes@;
        let mut k: usize = 0;
        while k < arg.len()
            invariant
                0 <= k <= arg.len(),
                bytes@ == before + arg@.take(k as int),
            decreases arg.len() - k,
        {
            bytes.push(arg[k]);
            k += 1;
            assert(bytes@ =~= before + arg@.take(k as int));
        }
        bytes.push(0);
        n += 1;
        proof {
            assert(arg@.take(arg.len() as int) =~= arg@);
            assert(all.take(n as int).drop_last() =~= all.take(n - 1));
            assert(all.take(n as int).last() == arg@);
            assert(bytes@ =~= packed(all.take(n as int)));
        }
    }
    proof {
        assert(all.take(args.len() as int) =~= all);
    }
    let ghost len = bytes@.len() as int;
    while bytes.len() < ARGS_SIZE
        invariant
            len == packed(all).len(),
            len <= bytes@.len() <= ARGS_SIZE,
            bytes@.take(len) == packed(all),
            forall|i: int| len <= i < bytes@.len() ==> bytes@[i] == 0,
        decreases ARGS_SIZE - bytes.len(),
    {
        bytes.push(0);
        assert(bytes@.take(len) =~= packed(all));
    }
    (bytes, starts)
}

} // verus!
