//! Queries over the sale history.

use vstd::prelude::*;

use crate::sales::msg::{QueryMsg, QueryResp};
use crate::sales::state::{first_active, lemma_first_active, sale_active, sales_view, PrimarySale};
use crate::sales::Sales;

verus! {

impl Sales {
    /// Query dispatch.
    pub fn query(&self, now: u64, msg: QueryMsg) -> (r: QueryResp)
        ensures
            match msg {
                QueryMsg::PrimarySales {} => match r {
                    QueryResp::PrimarySales(v) => sales_view(v@) == self@,
                    QueryResp::ActivePrimarySale(_) => false,
                },
                QueryMsg::ActivePrimarySale {} => match r {
                    QueryResp::ActivePrimarySale(opt) => {
                        let k = first_active(self@, now as int);
                        match opt {
                            Some(s) => k < self@.len() && s@ == self@[k],
                            None => k == self@.len(),
                        }
                    },
                    QueryResp::PrimarySales(_) => false,
                },
            },
    {
        match msg {
            QueryMsg::PrimarySales {} => self.primary_sales(),
            QueryMsg::ActivePrimarySale {} => self.active_primary_sales(now),
        }
    }
    /// The full sale history, in creation order.
    pub fn primary_sales(&self) -> (r: QueryResp)
        ensures
            match r {
                QueryResp::PrimarySales(v) => sales_view(v@) == self@,
                QueryResp::ActivePrimarySale(_) => false,
            },
    {
        let n = self.primary_sales.len();
        let mut out: Vec<PrimarySale> = Vec::new();
        let mut i: usize = 0;
        proof {
            assert(sales_view(out@) =~= self@.take(0));
        }
        while i < n
            invariant
                i <= n,
                n == self@.len(),
                sales_view(out@) == self@.take(i as int),
            decreases n - i,
        {
            let ghost pre = sales_view(out@);
            out.push(self.primary_sales[i].clone());
            proof {
                assert(sales_view(out@) =~= pre.push(self@[i as int]));
                assert(self@.take(i as int + 1) =~= self@.take(i as int).push(self@[i as int]));
            }
            i = i + 1;
        }
        proof {
            assert(self@.take(n as int) =~= self@);
        }
        QueryResp::PrimarySales(out)
    }

    /// The first sale whose window contains `now` and which is not
    /// disabled, if any.
    pub fn active_primary_sales(&self, now: u64) -> (r: QueryResp)
        ensures
            match r {
                QueryResp::ActivePrimarySale(opt) => {
                    let k = first_active(self@, now as int);
                    match opt {
                        Some(s) => k < self@.len() && s@ == self@[k],
                        None => k == self@.len(),
                    }
                },
                QueryResp::PrimarySales(_) => false,
            },
    {
        let n = self.primary_sales.len();
        let mut i: usize = 0;
        loop
            invariant
                i <= n,
                n == self@.len(),
                forall|j: int| 0 <= j < i ==> !sale_active(#[trigger] self@[j], now as int),
            decreases n - i,
        {
            proof {
                lemma_first_active(self@, now as int);
            }
            if i == n {
                return QueryResp::ActivePrimarySale(None);
            }
            let s = &self.primary_sales[i];
            if !s.disabled && s.start_time <= now && s.end_time > now {
                assert(sale_active(self@[i as int], now as int));
                return QueryResp::ActivePrimarySale(Some(s.clone()));
            }
            i = i + 1;
        }
    }
}

} // verus!
