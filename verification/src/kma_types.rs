//! The shape of a forecast response of the weather service.

use vstd::prelude::*;

verus! {

/// A whole response.
#[derive(Debug)]
pub struct KmaResponseFull {
    pub response: KmaResponse,
}

/// The header and the body of a response.
#[derive(Debug)]
pub struct KmaResponse {
    pub header: KmaHeader,
    pub body: KmaBody,
}

/// The result code of a response and what it means.
#[allow(non_snake_case)]
#[derive(Debug)]
pub struct KmaHeader {
    pub resultCode: String,
    pub resultMsg: String,
}

/// The forecast items of a response and how they are paged.
#[allow(non_snake_case)]
#[derive(Debug)]
pub struct KmaBody {
    pub dataType: String,
    pub items: KmaItems,
    pub pageNo: u32,
    pub numOfRows: u32,
    pub totalCount: u32,
}

/// The list of forecast items.
#[derive(Debug)]
pub struct KmaItems {
    pub item: Vec<KmaItem>,
}

/// One forecast value: what is forecast, for when, and for which grid cell.
#[allow(non_snake_case)]
#[derive(Debug)]
pub struct KmaItem {
    pub baseDate: String,
    pub baseTime: String,
    pub category: String,
    pub fcstDate: String,
    pub fcstTime: String,
    pub fcstValue: String,
    pub nx: u32,
    pub ny: u32,
}

impl Clone for KmaItem {
    fn clone(&self) -> (r: Self)
        ensures
            r == *self,
    {
        KmaItem {
            baseDate: self.baseDate.clone(),
            baseTime: self.baseTime.clone(),
            category: self.category.clone(),
            fcstDate: self.fcstDate.clone(),
            fcstTime: self.fcstTime.clone(),
            fcstValue: self.fcstValue.clone(),
            nx: self.nx,
            ny: self.ny,
        }
    }
}

} // verus!
