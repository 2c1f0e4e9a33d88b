//! Shapes of the answers the read side gives.

use vstd::prelude::*;
use crate::cache::BlockNumbers;
use crate::chain::NetworkType;

verus! {

/// An answer with its status word, `Ok` or `Error`.
#[derive(Debug)]
pub struct ApiResponse<T> {
    pub status: String,
    pub result: T,
}

impl<T> ApiResponse<T> {
    /// A successful answer carrying `result`.
    pub fn ok(result: T) -> (r: ApiResponse<T>)
        ensures
            r.status@ == "Ok"@,
            r.result == result,
    {
        ApiResponse { status: String::from_str("Ok"), result }
    }

    /// A failed answer carrying `result`.
    pub fn error(result: T) -> (r: ApiResponse<T>)
        ensures
            r.status@ == "Error"@,
            r.result == result,
    {
        ApiResponse { status: String::from_str("Error"), result }
    }
}

/// A page request over a listing; absent values take their defaults.
#[derive(Debug)]
pub struct Pagination {
    pub page: Option<i64>,
    pub per_page: Option<i64>,
}

impl Pagination {
    /// The page and page size asked for: page 1 and 10 per page where absent.
    pub fn resolved(&self) -> (r: (i64, i64))
        ensures
            r.0 == (match self.page {
                Some(p) => p,
                None => 1,
            }),
            r.1 == (match self.per_page {
                Some(n) => n,
                None => 10,
            }),
    {
        let page: i64 = match self.page {
            Some(p) => p,
            None => 1,
        };
        let per_page: i64 = match self.per_page {
            Some(n) => n,
            None => 10,
        };
        (page, per_page)
    }
}

/// Heights per chain for the classes asked for; a class not asked for is absent.
#[derive(Debug)]
pub struct BlockNumbersResponse {
    pub mainnet: Option<Vec<(String, u64)>>,
    pub testnet: Option<Vec<(String, u64)>>,
    pub localnet: Option<Vec<(String, u64)>>,
}

/// `v` lists exactly the entries of snapshot `s`, in chain order.
pub open spec fn lists_snapshot(v: Vec<(String, u64)>, s: crate::snapshot::Snapshot) -> bool {
    &&& v.len() == s.ids().len()
    &&& forall|i: int|
        0 <= i < v.len() ==> (#[trigger] v@[i]).0@ == s.ids()[i] && v@[i].1 == s.heights()[i]
}

/// Whether the answer for `asked` holds class `class`.
pub open spec fn class_asked(asked: Option<NetworkType>, class: NetworkType) -> bool {
    match asked {
        Some(c) => c == class,
        None => true,
    }
}

/// The answer's field for `class`: the class's snapshot where it was asked
/// for, else absent.
pub open spec fn answers_class(
    field: Option<Vec<(String, u64)>>,
    b: &BlockNumbers,
    asked: Option<NetworkType>,
    class: NetworkType,
) -> bool {
    match field {
        Some(v) => class_asked(asked, class) && lists_snapshot(v, b.snapshot_of(class)),
        None => !class_asked(asked, class),
    }
}

impl BlockNumbers {
    /// The heights of one class, or of all three where `network_type` is `None`.
    pub fn block_numbers_response(&self, network_type: Option<NetworkType>) -> (r:
        BlockNumbersResponse)
        requires
            self.wf(),
        ensures
            answers_class(r.mainnet, self, network_type, NetworkType::MAINNET),
            answers_class(r.testnet, self, network_type, NetworkType::TESTNET),
            answers_class(r.localnet, self, network_type, NetworkType::LOCALNET),
    {
        let want_main = match network_type {
            Some(c) => c == NetworkType::MAINNET,
            None => true,
        };
        let want_test = match network_type {
            Some(c) => c == NetworkType::TESTNET,
            None => true,
        };
        let want_local = match network_type {
            Some(c) => c == NetworkType::LOCALNET,
            None => true,
        };
        let (main, test, local) = self.get_all_snapshots();
        assert(main.wf() && test.wf() && local.wf()) by {
            assert(self.snapshot_of(NetworkType::MAINNET).wf());
            assert(self.snapshot_of(NetworkType::TESTNET).wf());
            assert(self.snapshot_of(NetworkType::LOCALNET).wf());
        }
        BlockNumbersResponse {
            mainnet: if want_main {
                Some(main.entries())
            } else {
                None
            },
            testnet: if want_test {
                Some(test.entries())
            } else {
                None
            },
            localnet: if want_local {
                Some(local.entries())
            } else {
                None
            },
        }
    }
}

} // verus!
