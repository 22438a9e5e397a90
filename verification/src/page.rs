//! One page of query results.
use vstd::prelude::*;

verus! {

/// One page of results.
#[derive(Debug, Clone)]
pub struct PageData<T> {
    /// How many items match the current filter.
    pub total: u64,
    /// The page number.
    pub page: u64,
    /// How many items a page holds.
    pub size: u32,
    /// The items of this page.
    pub data: Vec<T>,
}

/// `R::try_from` can give `Ok` for `x`.
pub open spec fn converts_ok<T, R: TryFrom<T, Error = E>, E>(x: T) -> bool {
    exists|r: R| #[trigger] call_ensures(R::try_from, (x,), Ok::<R, E>(r))
}

impl<T> PageData<T> {
    /// Converts every item with `From`, keeping the counters.
    pub fn into<R: From<T>>(self) -> (res: PageData<R>)
        ensures
            res.total == self.total,
            res.page == self.page,
            res.size == self.size,
            res.data.len() == self.data.len(),
            forall|i: int| 0 <= i < self.data.len() ==> call_ensures(R::from, (self.data@[i],), #[trigger] res.data@[i]),
    {
        let ghost items = self.data@;
        let mut data: Vec<R> = Vec::new();
        for d in it: self.data
            invariant
                it.seq() == items,
                data.len() == it.index(),
                forall|i: int| 0 <= i < data.len() ==> call_ensures(R::from, (items[i],), #[trigger] data@[i]),
        {
            data.push(R::from(d));
        }
        PageData { total: self.total, page: self.page, size: self.size, data }
    }

    /// Converts every item with `TryFrom`, keeping the counters; the first item that
    /// fails to convert gives the error, and the items after it are not converted.
    pub fn try_into<R: TryFrom<T, Error = E>, E>(self) -> (res: Result<PageData<R>, E>)
        ensures
            match res {
                Ok(p) => {
                    &&& p.total == self.total
                    &&& p.page == self.page
                    &&& p.size == self.size
                    &&& p.data.len() == self.data.len()
                    &&& forall|i: int| 0 <= i < self.data.len() ==> call_ensures(R::try_from, (self.data@[i],), Ok::<R, E>(#[trigger] p.data@[i]))
                },
                Err(e) => exists|k: int| {
                    &&& 0 <= k < self.data.len()
                    &&& #[trigger] call_ensures(R::try_from, (self.data@[k],), Err::<R, E>(e))
                    &&& forall|j: int| 0 <= j < k ==> converts_ok::<T, R, E>(#[trigger] self.data@[j])
                },
            },
    {
        let ghost items = self.data@;
        let mut data: Vec<R> = Vec::new();
        let mut failure: Option<E> = None;
        let ghost mut fail_at: int = 0;
        for d in it: self.data
            invariant
                it.seq() == items,
                failure is None ==> data.len() == it.index(),
                forall|i: int| 0 <= i < data.len() ==> call_ensures(R::try_from, (items[i],), Ok::<R, E>(#[trigger] data@[i])),
                failure matches Some(e) ==> 0 <= fail_at < items.len() && fail_at == data.len() && call_ensures(R::try_from, (items[fail_at],), Err::<R, E>(e)),
        {
            if failure.is_none() {
                match R::try_from(d) {
                    Ok(r) => data.push(r),
                    Err(e) => {
                        failure = Some(e);
                        proof {
                            fail_at = data.len() as int;
                        }
                    },
                }
            }
        }
        if let Some(e) = failure {
            assert(call_ensures(R::try_from, (self.data@[fail_at],), Err::<R, E>(e)));
            assert forall|j: int| 0 <= j < fail_at implies converts_ok::<T, R, E>(#[trigger] self.data@[j]) by {
                assert(call_ensures(R::try_from, (items[j],), Ok::<R, E>(data@[j])));
            }
            let res: Result<PageData<R>, E> = Err(e);
            assert(res matches Err(e2) && e2 == e);
            return res;
        }
        Ok(PageData { total: self.total, page: self.page, size: self.size, data })
    }
}

} // verus!
