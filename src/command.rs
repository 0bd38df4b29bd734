use vstd::prelude::*;

verus! {

broadcast use vstd::seq_lib::group_seq_properties;

/// The build tool that the forwarded command runs.
pub const BUILD_TOOL: &'static str = "cargo";

/// The flag that scopes the build tool to one package.
pub const PACKAGE_FLAG: &'static str = "--package";

/// Each argument preceded by one space.
pub open spec fn spaced(args: Seq<Seq<char>>) -> Seq<char>
    decreases args.len(),
{
    if args.len() == 0 {
        seq![]
    } else {
        spaced(args.drop_last()) + seq![' '] + args.last()
    }
}

/// The line printed before the forwarded command runs:
/// `run: cargo <args> --package <name>`.
pub open spec fn announcement(args: Seq<Seq<char>>, name: Seq<char>) -> Seq<char> {
    seq!['r', 'u', 'n', ':', ' ', 'c', 'a', 'r', 'g', 'o'] + spaced(args) + seq![
        ' ', '-', '-', 'p', 'a', 'c', 'k', 'a', 'g', 'e', ' ',
    ] + name
}

/// The arguments handed to the build tool: the user's, then the package flag
/// and the crate's name.
pub fn forwarded_args(args: &Vec<String>, crate_name: &str) -> (r: Vec<String>)
    ensures
        r@.map_values(|a: String| a@) == args@.map_values(|a: String| a@) + seq![
            seq!['-', '-', 'p', 'a', 'c', 'k', 'a', 'g', 'e'],
            crate_name@,
        ],
{
    let mut out: Vec<String> = Vec::new();
    let mut k: usize = 0;
    while k < args.len()
        invariant
            k <= args.len(),
            out@.map_values(|a: String| a@) == args@.take(k as int).map_values(|a: String| a@),
        decreases args.len() - k,
    {
        let a = String::from_str(args[k].as_str());
        let ghost prev = out@.map_values(|a: String| a@);
        out.push(a);
        assert(out@.map_values(|a: String| a@) =~= prev.push(args@[k as int]@));
        assert(args@.take(k + 1) =~= args@.take(k as int).push(args@[k as int]));
        assert(out@.map_values(|a: String| a@) =~= args@.take(k + 1).map_values(|a: String| a@));
        k = k + 1;
    }
    assert(args@.take(k as int) =~= args@);
    proof {
        reveal_strlit("--package");
    }
    assert(PACKAGE_FLAG@ =~= seq!['-', '-', 'p', 'a', 'c', 'k', 'a', 'g', 'e']);
    let ghost before = out@.map_values(|a: String| a@);
    out.push(String::from_str(PACKAGE_FLAG));
    out.push(String::from_str(crate_name));
    assert(out@.map_values(|a: String| a@) =~= before.push(PACKAGE_FLAG@).push(crate_name@));
    assert(out@.map_values(|a: String| a@) =~= args@.map_values(|a: String| a@) + seq![
        seq!['-', '-', 'p', 'a', 'c', 'k', 'a', 'g', 'e'],
        crate_name@,
    ]);
    out
}

/// The line to print before the forwarded command runs.
pub fn announce(args: &Vec<String>, crate_name: &str) -> (r: String)
    ensures
        r@ == announcement(args@.map_values(|a: String| a@), crate_name@),
{
    proof {
        reveal_strlit("run: cargo");
    }
    assert("run: cargo"@ =~= seq!['r', 'u', 'n', ':', ' ', 'c', 'a', 'r', 'g', 'o']);
    let mut out = String::from_str("run: cargo");
    let mut k: usize = 0;
    while k < args.len()
        invariant
            k <= args.len(),
            out@ == seq!['r', 'u', 'n', ':', ' ', 'c', 'a', 'r', 'g', 'o'] + spaced(
                args@.take(k as int).map_values(|a: String| a@),
            ),
        decreases args.len() - k,
    {
        let ghost prev = out@;
        proof {
            reveal_strlit(" ");
        }
        assert(" "@ =~= seq![' ']);
        out.append(" ");
        assert(out@ =~= prev + seq![' ']);
        let a = args[k].as_str();
        assert(a@ == args@[k as int]@);
        out.append(a);
        assert(out@ =~= prev + seq![' '] + args@[k as int]@);
        let ghost s = args@.take(k + 1).map_values(|a: String| a@);
        assert(args@.take(k + 1) =~= args@.take(k as int).push(args@[k as int]));
        assert(s.drop_last() =~= args@.take(k as int).map_values(|a: String| a@));
        assert(s.last() == args@[k as int]@);
        k = k + 1;
    }
    assert(args@.take(k as int) =~= args@);
    proof {
        reveal_strlit(" --package ");
    }
    assert(" --package "@ =~= seq![' ', '-', '-', 'p', 'a', 'c', 'k', 'a', 'g', 'e', ' ']);
    out.append(" --package ");
    out.append(crate_name);
    out
}

} // verus!
