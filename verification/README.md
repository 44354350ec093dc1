# registry_proxy

The decisions of a container registry that proxies other registries, verified
with Verus.

A repository `f/<alias>/<repo>` stands for the image `<repo>` of the remote
registry that is configured under `<alias>`. The library finds that registry,
settles how and as whom it is spoken to, and decides what is downloaded from it
and what is kept. It performs no input or output: each step of a download says
what is to be asked, and its methods take the answer to the next step.

- `src/config.rs`: the configured registries, and the client for each of them
- `src/ecr.rs`: the region and the password of an AWS ECR registry
- `src/image.rs`, `src/digest.rs`: remote images and how they are referred to
- `src/download.rs`, `src/manifest.rs`: the steps of a download
- `src/download_run.rs`, `src/manifest_run.rs`: what whole downloads come to
- `src/database.rs`: what downloads do to the rows of the database
- `src/error.rs`, `src/text.rs`: errors, and searching in text
- `app/`: carries the steps out against AWS, the remote registries, the database
  and the storage
