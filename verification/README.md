# stellar_api

The store behind the Stellar creator platform's REST API, written in Verus.

- `src/` is the verified library:
  - `model` – requests, stored records, `ApiError` (with its HTTP status) and the
    `ApiResponse` envelope;
  - `text` – code-point ordering of strings and the normalisation of a
    freelancer's name into an address;
  - `str_map` – a string-keyed map kept in ascending key order;
  - `db` – the in-memory database, its abstract view, the effect of each write and
    the consistency (`db_wf`) that every write keeps;
  - `store` – transactions that stage their writes on a copy and commit only when
    every step succeeded, and the operations built on them;
  - `queries` – lookups, listings and their pages;
  - `paging` – splitting a listing into pages;
  - `replies` – the status, message and data of each successful write's answer;
  - `laws` – proofs of the properties that span operations;
  - `api_doc` – the documented routes.
- `app/` is the actix-web service around it: handlers, JSON forms of the types,
  the OpenAPI document for Swagger UI, logging and configuration.
- `tests/` exercises the library.
