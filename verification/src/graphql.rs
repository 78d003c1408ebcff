//! The query document, the response-envelope shape of the marketplace's
//! query API, and the classification of an envelope into a page result or
//! an error.
#![allow(non_snake_case)]

use vstd::prelude::*;
use crate::errors::{ErrorModel, FetchListingsError};

verus! {

/// Number of listings requested per page.
pub const FIRST: u32 = 30;

/// The fixed query document sent with every page request.
pub const GRAPHQL_QUERY: &'static str = "
query SearchListingsByConstraints($query: String, $constraints: ListingSearchConstraints, $category: ID, $first: Int!, $offset: Int!, $sort: ListingSortMode!, $direction: SortDirection!) {
  searchListingsByQuery(
    query: $query
    constraints: $constraints
    category: $category
  ) {
    listings(first: $first, offset: $offset, sort: $sort, direction: $direction) {
      totalCount
      edges {
        node {
          listingID
          title
          body
          timestamp
          formattedPrice
          sellerInfo {
            alias
          }
          thumbnail {
            normalRendition: rendition(width: 235, height: 167) {
              src
            }
          }
        }
      }
    }
  }
}
";

/// One classified ad as the wire response carries it.
#[derive(Debug, Clone)]
pub struct ListingNode {
    pub listingID: String,
    pub title: String,
    pub body: String,
    pub timestamp: String,
    pub formattedPrice: Option<String>,
    pub sellerInfo: SellerInfo,
    pub thumbnail: Option<Thumbnail>,
}

#[derive(Debug, Clone)]
pub struct SellerInfo {
    pub alias: String,
}

#[derive(Debug, Clone)]
pub struct Thumbnail {
    pub normalRendition: Option<Rendition>,
}

#[derive(Debug, Clone)]
pub struct Rendition {
    pub src: String,
}

#[derive(Debug, Clone)]
pub struct Edge {
    pub node: ListingNode,
}

#[derive(Debug, Clone)]
pub struct Listings {
    pub totalCount: u32,
    pub edges: Vec<Edge>,
}

#[derive(Debug, Clone)]
pub struct ListingsByQuery {
    pub listings: Listings,
}

#[derive(Debug, Clone)]
pub struct GraphQLData {
    pub searchListingsByQuery: ListingsByQuery,
}

/// The full response envelope: an optional data document and an optional
/// server-reported error payload, the latter already rendered to text.
#[derive(Debug, Clone)]
pub struct GraphQLResponse {
    pub data: Option<GraphQLData>,
    pub errors: Option<String>,
}

/// What classifying a response envelope yields: either the total result
/// count together with the page's listings in server order, or an error.
///
/// A server-reported error payload takes precedence and carries the
/// server's message; an absent data document is the empty-response
/// failure; otherwise the listings are the edge nodes in order.
pub open spec fn classify_model(resp: GraphQLResponse) -> Result<
    (u32, Seq<ListingNode>),
    ErrorModel,
> {
    match resp.errors {
        Some(msg) => Err(ErrorModel::Parse("API returned errors: "@ + msg@)),
        None => match resp.data {
            None => Err(ErrorModel::Parse("Empty data in response"@)),
            Some(data) => Ok(
                (
                    data.searchListingsByQuery.listings.totalCount,
                    data.searchListingsByQuery.listings.edges@.map_values(|e: Edge| e.node),
                ),
            ),
        },
    }
}

/// Turns a response envelope into a page result or a classified error,
/// exactly as [`classify_model`] states.
pub fn classify_response(resp: GraphQLResponse) -> (r: Result<
    (u32, Vec<ListingNode>),
    FetchListingsError,
>)
    ensures
        r is Ok <==> classify_model(resp) is Ok,
        r matches Ok((total, nodes)) ==> {
            let m = classify_model(resp)->Ok_0;
            total == m.0 && nodes@ == m.1
        },
        r matches Err(e) ==> e@ == classify_model(resp)->Err_0,
{
    if let Some(msg) = resp.errors {
        return Err(
            FetchListingsError::ParseError(
                String::from_str("API returned errors: ").concat(msg.as_str()),
            ),
        );
    }
    let data = match resp.data {
        None => {
            return Err(FetchListingsError::ParseError(String::from_str("Empty data in response")));
        },
        Some(data) => data,
    };
    let listings = data.searchListingsByQuery.listings;
    let total_count = listings.totalCount;
    let mut edges = listings.edges;
    let ghost all_edges = edges@;
    let mut nodes: Vec<ListingNode> = Vec::new();
    while edges.len() > 0
        invariant
            nodes@.len() + edges@.len() == all_edges.len(),
            edges@ == all_edges.skip(nodes@.len() as int),
            nodes@ == all_edges.take(nodes@.len() as int).map_values(|e: Edge| e.node),
        decreases edges@.len(),
    {
        let ghost k = nodes@.len() as int;
        let edge = edges.remove(0);
        nodes.push(edge.node);
        proof {
            assert(all_edges.take(k + 1).drop_last() =~= all_edges.take(k));
            assert(nodes@ =~= all_edges.take(k + 1).map_values(|e: Edge| e.node));
            assert(edges@ =~= all_edges.skip(k + 1));
        }
    }
    proof {
        assert(all_edges.take(all_edges.len() as int) =~= all_edges);
        assert(nodes@ =~= all_edges.map_values(|e: Edge| e.node));
    }
    Ok((total_count, nodes))
}

} // verus!
